use vstd::prelude::*;
use crate::config::RunConfig;
use crate::config::Timeframe;
use crate::decimal::decimal;
use crate::decimal::is_digit;
use crate::decimal::lemma_decimal;
use crate::decimal::lemma_decimal_injective;
use crate::decimal::push_decimal;

verus! {

pub open spec fn url_head() -> Seq<char> {
    "https://climate.weather.gc.ca/climate_data/bulk_data_e.html?format=csv&stationID="@
}

pub open spec fn url_year() -> Seq<char> {
    "&Year="@
}

pub open spec fn url_month() -> Seq<char> {
    "&Month="@
}

pub open spec fn url_timeframe() -> Seq<char> {
    "&Day=1&time=UTC&timeframe="@
}

pub open spec fn url_tail() -> Seq<char> {
    "&submit=%20Download+Data"@
}

/// The address of the bulk CSV data of one station for one month.
pub open spec fn url_of(station: Seq<char>, year: nat, month: nat, timeframe: Timeframe) -> Seq<
    char,
> {
    url_head() + station + url_year() + decimal(year) + url_month() + decimal(month)
        + url_timeframe() + decimal(timeframe.spec_code()) + url_tail()
}

/// The name of the file that holds one station's data for one month.
pub open spec fn file_name_of(station: Seq<char>, timeframe: Timeframe, year: nat, month: nat) -> Seq<
    char,
> {
    station + "_"@ + decimal(timeframe.spec_code()) + "_"@ + decimal(year) + "-"@ + decimal(month)
        + ".csv"@
}

/// Where the data of one station for one month is saved.
pub open spec fn path_of(
    directory: Seq<char>,
    station: Seq<char>,
    timeframe: Timeframe,
    year: nat,
    month: nat,
) -> Seq<char> {
    directory + "/"@ + file_name_of(station, timeframe, year, month)
}

/// Builds the address from which one month of one station's data is fetched.
pub fn target_url(station: &str, year: u16, month: u8, timeframe: Timeframe) -> (r: String)
    ensures
        r@ == url_of(station@, year as nat, month as nat, timeframe),
{
    let mut s = String::new();
    s.append("https://climate.weather.gc.ca/climate_data/bulk_data_e.html?format=csv&stationID=");
    s.append(station);
    s.append("&Year=");
    push_decimal(&mut s, year as u64);
    s.append("&Month=");
    push_decimal(&mut s, month as u64);
    s.append("&Day=1&time=UTC&timeframe=");
    push_decimal(&mut s, timeframe.code() as u64);
    s.append("&submit=%20Download+Data");
    s
}

/// Builds the name of the file that one month of one station's data goes to.
pub fn file_name(station: &str, timeframe: Timeframe, year: u16, month: u8) -> (r: String)
    ensures
        r@ == file_name_of(station@, timeframe, year as nat, month as nat),
{
    let mut s = String::new();
    s.append(station);
    s.append("_");
    push_decimal(&mut s, timeframe.code() as u64);
    s.append("_");
    push_decimal(&mut s, year as u64);
    s.append("-");
    push_decimal(&mut s, month as u64);
    s.append(".csv");
    s
}

/// Builds the path, inside `directory`, of the file that one month of one
/// station's data goes to.
pub fn target_path(directory: &str, station: &str, timeframe: Timeframe, year: u16, month: u8) -> (r:
    String)
    ensures
        r@ == path_of(directory@, station@, timeframe, year as nat, month as nat),
{
    let mut s = String::new();
    s.append(directory);
    s.append("/");
    let name = file_name(station, timeframe, year, month);
    s.append(name.as_str());
    proof {
        assert(s@ =~= path_of(directory@, station@, timeframe, year as nat, month as nat));
    }
    s
}

/// The request and the destination file for one month of a run.
pub struct FetchTarget {
    pub url: String,
    pub path: String,
}

/// Builds the request address and the destination path for one month.
pub fn fetch_target(config: &RunConfig, year: u16, month: u8) -> (r: FetchTarget)
    ensures
        r.url@ == url_of(config.station@, year as nat, month as nat, config.timeframe),
        r.path@ == path_of(
            config.directory@,
            config.station@,
            config.timeframe,
            year as nat,
            month as nat,
        ),
{
    let url = target_url(config.station.as_str(), year, month, config.timeframe);
    let path = target_path(
        config.directory.as_str(),
        config.station.as_str(),
        config.timeframe,
        year,
        month,
    );
    FetchTarget { url, path }
}

proof fn lemma_strip_suffix(a: Seq<char>, b: Seq<char>, t: Seq<char>)
    requires
        a + t == b + t,
    ensures
        a == b,
{
    assert(a =~= (a + t).subrange(0, a.len() as int));
    assert(b =~= (b + t).subrange(0, b.len() as int));
}

proof fn lemma_ends_without_digit(p: Seq<char>, t: Seq<char>)
    requires
        t.len() > 0,
        !is_digit(t.last()),
    ensures
        (p + t).len() > 0,
        !is_digit((p + t).last()),
{
    assert((p + t).last() == t.last());
}

/// Where two strings end in decimal writings, each after a character that is
/// not a digit, equal strings have equal numbers and equal heads.
proof fn lemma_split_decimal(p1: Seq<char>, x1: nat, p2: Seq<char>, x2: nat)
    requires
        p1 + decimal(x1) == p2 + decimal(x2),
        p1.len() > 0,
        p2.len() > 0,
        !is_digit(p1.last()),
        !is_digit(p2.last()),
    ensures
        x1 == x2,
        p1 == p2,
{
    lemma_decimal(x1);
    lemma_decimal(x2);
    let whole = p1 + decimal(x1);
    let a = decimal(x1).len();
    let b = decimal(x2).len();
    let other = p2 + decimal(x2);
    assert(whole.len() == p1.len() + a);
    assert(other.len() == p2.len() + b);
    if a < b {
        let k = p1.len() - 1;
        assert(whole[k] == p1.last());
        assert(other[k] == decimal(x2)[k - p2.len()]);
        assert(is_digit(decimal(x2)[k - p2.len()]));
    }
    if b < a {
        let k = p2.len() - 1;
        assert(other[k] == p2.last());
        assert(whole[k] == decimal(x1)[k - p1.len()]);
        assert(is_digit(decimal(x1)[k - p1.len()]));
    }
    assert(decimal(x1) =~= whole.subrange(p1.len() as int, whole.len() as int));
    assert(decimal(x2) =~= whole.subrange(p2.len() as int, whole.len() as int));
    lemma_decimal_injective(x1, x2);
    lemma_strip_suffix(p1, p2, decimal(x1));
}

/// A target address determines the station, year, month and timeframe it
/// was built from.
pub proof fn lemma_url_injective(
    station1: Seq<char>,
    year1: nat,
    month1: nat,
    timeframe1: Timeframe,
    station2: Seq<char>,
    year2: nat,
    month2: nat,
    timeframe2: Timeframe,
)
    requires
        url_of(station1, year1, month1, timeframe1) == url_of(station2, year2, month2, timeframe2),
    ensures
        station1 == station2,
        year1 == year2,
        month1 == month2,
        timeframe1 == timeframe2,
{
    reveal_strlit("https://climate.weather.gc.ca/climate_data/bulk_data_e.html?format=csv&stationID=");
    reveal_strlit("&Year=");
    reveal_strlit("&Month=");
    reveal_strlit("&Day=1&time=UTC&timeframe=");
    let y1 = url_head() + station1 + url_year();
    let y2 = url_head() + station2 + url_year();
    let m1 = y1 + decimal(year1) + url_month();
    let m2 = y2 + decimal(year2) + url_month();
    let t1 = m1 + decimal(month1) + url_timeframe();
    let t2 = m2 + decimal(month2) + url_timeframe();
    lemma_strip_suffix(
        t1 + decimal(timeframe1.spec_code()),
        t2 + decimal(timeframe2.spec_code()),
        url_tail(),
    );
    lemma_ends_without_digit(m1 + decimal(month1), url_timeframe());
    lemma_ends_without_digit(m2 + decimal(month2), url_timeframe());
    lemma_split_decimal(t1, timeframe1.spec_code(), t2, timeframe2.spec_code());
    lemma_strip_suffix(m1 + decimal(month1), m2 + decimal(month2), url_timeframe());
    lemma_ends_without_digit(y1 + decimal(year1), url_month());
    lemma_ends_without_digit(y2 + decimal(year2), url_month());
    lemma_split_decimal(m1, month1, m2, month2);
    lemma_strip_suffix(y1 + decimal(year1), y2 + decimal(year2), url_month());
    lemma_ends_without_digit(url_head() + station1, url_year());
    lemma_ends_without_digit(url_head() + station2, url_year());
    lemma_split_decimal(y1, year1, y2, year2);
    lemma_strip_suffix(url_head() + station1, url_head() + station2, url_year());
    assert(station1 =~= (url_head() + station1).subrange(
        url_head().len() as int,
        (url_head() + station1).len() as int,
    ));
    assert(station2 =~= (url_head() + station2).subrange(
        url_head().len() as int,
        (url_head() + station2).len() as int,
    ));
}

} // verus!
