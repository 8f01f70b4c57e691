//! Bandwidth quota and usage of a hosting project, and the billing cycle
//! they are counted over.
//!
//! The requests are made by the caller. This module says what to request,
//! and reads the answers.

use crate::calendar::{CalendarDate, Ymd};
use crate::encoding::{byte_serialized, form_encoded};
use crate::json::{parsed_json, Document, JsonTree, MalformedJson};
use vstd::prelude::*;
use vstd::utf8::encode_utf8;

verus! {

/// Day of the month on which a billing cycle starts.
pub const BILLING_CYCLE_START_DAY: u32 = 5;

/// Gigabytes in a terabyte, as the quota counts them.
pub const GB_PER_TB: u64 = 1024;

/// Access to the usage API. Without a key there is nothing to ask.
pub struct Latitude {
    latitude_api_key: Option<String>,
}

impl View for Latitude {
    type V = Option<Seq<char>>;

    closed spec fn view(&self) -> Option<Seq<char>> {
        match self.latitude_api_key {
            Some(key) => Some(key@),
            None => None,
        }
    }
}

/// Traffic of a project in a billing cycle, in gigabytes, and the share of
/// the quota that each direction has used up, in percent.
#[derive(Clone, Copy, Debug, PartialEq, Eq)]
pub struct BandwidthUsage {
    pub inbound: u64,
    pub outbound: u64,
    pub quota: u64,
    pub inbound_usage: u64,
    pub outbound_usage: u64,
}

impl Default for BandwidthUsage {
    fn default() -> (usage: BandwidthUsage)
        ensures
            usage == (BandwidthUsage {
                inbound: 0,
                outbound: 0,
                quota: 0,
                inbound_usage: 0,
                outbound_usage: 0,
            }),
    {
        BandwidthUsage { inbound: 0, outbound: 0, quota: 0, inbound_usage: 0, outbound_usage: 0 }
    }
}

/// A GET request: where to send it, and the header lines to send with it.
#[derive(Clone, Debug)]
pub struct HttpRequest {
    pub url: String,
    pub headers: Vec<String>,
}

/// What a request says, as mathematical values.
pub struct HttpRequestModel {
    pub url: Seq<char>,
    pub headers: Seq<Seq<char>>,
}

impl View for HttpRequest {
    type V = HttpRequestModel;

    open spec fn view(&self) -> HttpRequestModel {
        HttpRequestModel {
            url: self.url@,
            headers: self.headers@.map_values(|line: String| line@),
        }
    }
}

/// The header lines that every request carries: the key, and the format
/// asked for.
pub open spec fn header_lines(key: Seq<char>) -> Seq<Seq<char>> {
    seq!["Authorization: "@ + key, "accept: application/json"@]
}

/// The request for the traffic quota.
pub open spec fn quota_request_for(key: Seq<char>) -> HttpRequestModel {
    HttpRequestModel { url: "https://api.latitude.sh/traffic/quota"@, headers: header_lines(key) }
}

/// The request for the traffic of a project between two instants, each
/// given without its zone and taken as UTC.
pub open spec fn usage_request_for(
    key: Seq<char>,
    project_id: Seq<char>,
    start: Seq<char>,
    end: Seq<char>,
) -> HttpRequestModel {
    HttpRequestModel {
        url: "https://api.latitude.sh/traffic?filter[project]="@ + project_id
            + "&filter[date][gte]="@ + form_encoded(encode_utf8(start)) + "Z&filter[date][lte]="@
            + form_encoded(encode_utf8(end)) + "Z"@,
        headers: header_lines(key),
    }
}

/// The quota of the first project that a quota document lists: its total
/// for the first region in gigabytes, and the project's id. `None` where
/// either is missing, or where the quota in gigabytes exceeds 64 bits.
pub open spec fn quota_in(document: JsonTree) -> Option<(u64, Seq<char>)> {
    let project = document.member("data"@).member("attributes"@).member(
        "quota_per_project"@,
    ).element(0);
    quota_of(
        project.member("project_id"@).as_text(),
        project.member("quota_per_region"@).element(0).member("quota_in_tb"@).member(
            "total"@,
        ).as_unsigned(),
    )
}

/// The quota in gigabytes and the project's id, from the id and the quota
/// in terabytes as far as a document held them.
pub open spec fn quota_of(project_id: Option<Seq<char>>, total_tb: Option<u64>) -> Option<
    (u64, Seq<char>),
> {
    match (project_id, total_tb) {
        (Some(id), Some(tb)) => if tb * GB_PER_TB <= u64::MAX {
            Some(((tb * GB_PER_TB) as u64, id))
        } else {
            None
        },
        _ => None,
    }
}

/// The usage that a traffic document reports against `quota`.
pub open spec fn usage_in(quota: u64, document: JsonTree) -> Option<BandwidthUsage> {
    let totals = document.member("data"@).member("attributes"@);
    usage_of(
        totals.member("total_inbound_gb"@).as_unsigned(),
        totals.member("total_outbound_gb"@).as_unsigned(),
        quota,
    )
}

/// The usage for the given totals, as far as a document held them. `None`
/// where one is missing, where the quota is zero, or where a share exceeds
/// 64 bits.
pub open spec fn usage_of(inbound: Option<u64>, outbound: Option<u64>, quota: u64) -> Option<
    BandwidthUsage,
> {
    match (inbound, outbound) {
        (Some(inbound), Some(outbound)) => if quota > 0 && inbound * 100 / (quota as int)
            <= u64::MAX && outbound * 100 / (quota as int) <= u64::MAX {
            Some(
                BandwidthUsage {
                    inbound,
                    outbound,
                    quota,
                    inbound_usage: (inbound * 100 / (quota as int)) as u64,
                    outbound_usage: (outbound * 100 / (quota as int)) as u64,
                },
            )
        } else {
            None
        },
        _ => None,
    }
}

/// The billing cycle that a reference date lies in, for cycles that start on
/// `start_day` of each month: from that day of the reference's month to the
/// month after where the reference has reached the day, else from the month
/// before. `None` where the reference's month has no such day, or where the
/// other bound leaves the calendar. A bound in a month that is too short for
/// the day falls on the month's last day.
pub open spec fn cycle_bounds(start_day: int, reference: Ymd) -> Option<(Ymd, Ymd)> {
    let candidate = Ymd { year: reference.year, month: reference.month, day: start_day };
    if !candidate.is_date() {
        None
    } else if reference.day < start_day {
        match candidate.shifted(-1) {
            Some(start) => Some((start, candidate)),
            None => None,
        }
    } else {
        match candidate.shifted(1) {
            Some(end) => Some((candidate, end)),
            None => None,
        }
    }
}

/// The month after a month, with its year.
pub open spec fn month_after(year: int, month: int) -> (int, int) {
    if month == 12 {
        (year + 1, 1)
    } else {
        (year, month + 1)
    }
}

/// The month before a month, with its year.
pub open spec fn month_before(year: int, month: int) -> (int, int) {
    if month == 1 {
        (year - 1, 12)
    } else {
        (year, month - 1)
    }
}

/// For a reference date on or after the start day, the cycle runs from the
/// start day of the reference's month to the start day of the month after,
/// which is in the next year for December: provided both days exist.
pub proof fn lemma_cycle_starts_this_month(start_day: int, reference: Ymd)
    requires
        reference.is_date(),
        reference.day >= start_day,
        (Ymd { year: reference.year, month: reference.month, day: start_day }).is_date(),
        (Ymd {
            year: month_after(reference.year, reference.month).0,
            month: month_after(reference.year, reference.month).1,
            day: start_day,
        }).is_date(),
    ensures
        cycle_bounds(start_day, reference) == Some(
            (
                Ymd { year: reference.year, month: reference.month, day: start_day },
                Ymd {
                    year: month_after(reference.year, reference.month).0,
                    month: month_after(reference.year, reference.month).1,
                    day: start_day,
                },
            ),
        ),
{
}

/// For a reference date before the start day, the cycle runs from the start
/// day of the month before, which is in the previous year for January, to
/// the start day of the reference's month: provided both days exist.
pub proof fn lemma_cycle_started_last_month(start_day: int, reference: Ymd)
    requires
        reference.is_date(),
        reference.day < start_day,
        (Ymd { year: reference.year, month: reference.month, day: start_day }).is_date(),
        (Ymd {
            year: month_before(reference.year, reference.month).0,
            month: month_before(reference.year, reference.month).1,
            day: start_day,
        }).is_date(),
    ensures
        cycle_bounds(start_day, reference) == Some(
            (
                Ymd {
                    year: month_before(reference.year, reference.month).0,
                    month: month_before(reference.year, reference.month).1,
                    day: start_day,
                },
                Ymd { year: reference.year, month: reference.month, day: start_day },
            ),
        ),
{
}

fn header_lines_for(key: &String) -> (lines: Vec<String>)
    ensures
        lines@.map_values(|line: String| line@) == header_lines(key@),
{
    let mut authorization: String = String::from_str("Authorization: ");
    authorization.append(key.as_str());
    let mut lines: Vec<String> = Vec::new();
    lines.push(authorization);
    lines.push(String::from_str("accept: application/json"));
    assert(lines@.map_values(|line: String| line@) =~= header_lines(key@));
    lines
}

impl BandwidthUsage {
    /// The usage for the given traffic and quota, all in gigabytes.
    ///
    /// There is no usage to speak of without a quota, and none where a
    /// share in percent exceeds 64 bits.
    pub fn from_totals(inbound: u64, outbound: u64, quota: u64) -> (usage: Option<
        BandwidthUsage,
    >)
        ensures
            usage == usage_of(Some(inbound), Some(outbound), quota),
    {
        if quota == 0 {
            return None;
        }
        let inbound_usage: u128 = (inbound as u128) * 100 / (quota as u128);
        let outbound_usage: u128 = (outbound as u128) * 100 / (quota as u128);
        if inbound_usage > u64::MAX as u128 || outbound_usage > u64::MAX as u128 {
            return None;
        }
        Some(
            BandwidthUsage {
                inbound,
                outbound,
                quota,
                inbound_usage: inbound_usage as u64,
                outbound_usage: outbound_usage as u64,
            },
        )
    }
}

impl Latitude {
    /// Access with the given key, or none.
    pub fn new(latitude_api_key: Option<String>) -> (latitude: Latitude)
        ensures
            latitude@ == match latitude_api_key {
                Some(key) => Some(key@),
                None => None,
            },
    {
        Latitude { latitude_api_key }
    }

    /// The request for the traffic quota; none without a key.
    pub fn quota_request(&self) -> (request: Option<HttpRequest>)
        ensures
            match self@ {
                Some(key) => request matches Some(r) && r@ == quota_request_for(key),
                None => request is None,
            },
    {
        match &self.latitude_api_key {
            Some(key) => Some(
                HttpRequest {
                    url: String::from_str("https://api.latitude.sh/traffic/quota"),
                    headers: header_lines_for(key),
                },
            ),
            None => None,
        }
    }

    /// The quota in gigabytes and the project's id, from the id and the
    /// quota in terabytes as a quota document gave them.
    pub fn quota_from(project_id: Option<String>, total_tb: Option<u64>) -> (quota: Option<
        (u64, String),
    >)
        ensures
            match quota_of(
                match project_id {
                    Some(id) => Some(id@),
                    None => None,
                },
                total_tb,
            ) {
                Some((gb, id)) => quota matches Some(q) && q.0 == gb && q.1@ == id,
                None => quota is None,
            },
    {
        match (project_id, total_tb) {
            (Some(id), Some(tb)) => match tb.checked_mul(GB_PER_TB) {
                Some(gb) => Some((gb, id)),
                None => None,
            },
            _ => None,
        }
    }

    /// Reads the answer to the quota request.
    ///
    /// Fails where the answer is no JSON document. Otherwise gives the
    /// quota in gigabytes and the id of the first project listed, or `None`
    /// where the document does not hold them.
    pub fn traffic_quota(body: &str) -> (quota: Result<Option<(u64, String)>, MalformedJson>)
        ensures
            match parsed_json(body@) {
                None => quota is Err,
                Some(document) => match quota_in(document) {
                    Some((gb, id)) => quota matches Ok(Some(q)) && q.0 == gb && q.1@ == id,
                    None => quota matches Ok(None),
                },
            },
    {
        let document: Document = match Document::parse(body) {
            Ok(document) => document,
            Err(e) => {
                return Err(e);
            },
        };
        let project = document.root().member("data").member("attributes").member(
            "quota_per_project",
        ).element(0);
        let project_id: Option<String> = project.member("project_id").as_text();
        let total_tb: Option<u64> = project.member("quota_per_region").element(0).member(
            "quota_in_tb",
        ).member("total").as_unsigned();
        Ok(Latitude::quota_from(project_id, total_tb))
    }

    /// The dates of the billing cycle that `today` lies in, as
    /// `get_date_range` gives them for the billing day.
    pub fn billing_window(today: &CalendarDate) -> (window: Option<(String, String)>)
        ensures
            match cycle_bounds(BILLING_CYCLE_START_DAY as int, today@) {
                Some((start, end)) => window matches Some(w) && w.0@ == start.midnight_text()
                    && w.1@ == end.midnight_text(),
                None => window is None,
            },
    {
        Latitude::get_date_range(BILLING_CYCLE_START_DAY, today)
    }

    /// The request for a project's traffic from `start` to `end`, both as
    /// `get_date_range` writes them; none without a key.
    pub fn usage_request(&self, project_id: &str, start: &str, end: &str) -> (request: Option<
        HttpRequest,
    >)
        ensures
            match self@ {
                Some(key) => request matches Some(r) && r@ == usage_request_for(
                    key,
                    project_id@,
                    start@,
                    end@,
                ),
                None => request is None,
            },
    {
        match &self.latitude_api_key {
            Some(key) => {
                let start_date: String = byte_serialized(start);
                let end_date: String = byte_serialized(end);
                let mut url: String = String::from_str(
                    "https://api.latitude.sh/traffic?filter[project]=",
                );
                url.append(project_id);
                url.append("&filter[date][gte]=");
                url.append(start_date.as_str());
                url.append("Z&filter[date][lte]=");
                url.append(end_date.as_str());
                url.append("Z");
                Some(HttpRequest { url, headers: header_lines_for(key) })
            },
            None => None,
        }
    }

    /// Reads the answer to the usage request, against the quota in
    /// gigabytes.
    ///
    /// Fails where the answer is no JSON document. Otherwise gives the
    /// usage, or `None` where the document does not hold both totals or
    /// where `from_totals` gives none.
    pub fn bandwidth_usage(quota: u64, body: &str) -> (usage: Result<
        Option<BandwidthUsage>,
        MalformedJson,
    >)
        ensures
            match parsed_json(body@) {
                None => usage is Err,
                Some(document) => usage == Ok::<Option<BandwidthUsage>, MalformedJson>(
                    usage_in(quota, document),
                ),
            },
    {
        let document: Document = match Document::parse(body) {
            Ok(document) => document,
            Err(e) => {
                return Err(e);
            },
        };
        let totals = document.root().member("data").member("attributes");
        let inbound: Option<u64> = totals.member("total_inbound_gb").as_unsigned();
        let outbound: Option<u64> = totals.member("total_outbound_gb").as_unsigned();
        match (inbound, outbound) {
            (Some(inbound), Some(outbound)) => Ok(
                BandwidthUsage::from_totals(inbound, outbound, quota),
            ),
            _ => Ok(None),
        }
    }

    /// The billing cycle that `reference_date` lies in, for cycles that
    /// start on `start_day` of each month: its first day and the first day
    /// of the next cycle, each at midnight as `YYYY-MM-DDT00:00:00`.
    ///
    /// `None` where the month of the reference date has no such day, or
    /// where a bound lies outside the calendar.
    pub fn get_date_range(start_day: u32, reference_date: &CalendarDate) -> (range: Option<
        (String, String),
    >)
        ensures
            match cycle_bounds(start_day as int, reference_date@) {
                Some((start, end)) => range matches Some(r) && r.0@ == start.midnight_text()
                    && r.1@ == end.midnight_text(),
                None => range is None,
            },
    {
        let candidate: CalendarDate = match CalendarDate::from_ymd_opt(
            reference_date.year(),
            reference_date.month(),
            start_day,
        ) {
            Some(date) => date,
            None => {
                return None;
            },
        };
        if reference_date.day() < start_day {
            match candidate.checked_sub_months(1) {
                Some(start) => Some((start.midnight_stamp(), candidate.midnight_stamp())),
                None => None,
            }
        } else {
            match candidate.checked_add_months(1) {
                Some(end) => Some((candidate.midnight_stamp(), end.midnight_stamp())),
                None => None,
            }
        }
    }
}

} // verus!
