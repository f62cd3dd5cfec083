//! The Devin provider's rules: where its status RPC lives, how its answer
//! becomes quota rows, and which rows of the Devin CLI's local session store
//! are billable usage events.

use vstd::prelude::*;
use crate::json::{
    json_bool_at, json_boolean_at, json_has_at, json_parse_error, json_parse_error_of,
    json_present_at, json_str_at, json_string_at, toml_str_entry, toml_string_entry,
};
use crate::text::{is_prefix_of, starts_with, trim_end_char, trim_end_matches_char};

verus! {

/// A quota percent that proto3 omitted (its zero value) reads as 0%
/// remaining when its sibling reset timestamp proves the quota exists: the
/// omitted value becomes `T::default()`, which is `0.0` for `f64`.
pub fn zero_when_omitted<T: Default>(remaining: Option<T>, reset: Option<T>) -> (res: Option<T>)
    ensures
        remaining is Some ==> res == remaining,
        remaining is None && reset is Some ==> res is Some && call_ensures(T::default, (), res->0),
        remaining is None && reset is None ==> res is None,
{
    match remaining {
        Some(v) => Some(v),
        None => {
            if reset.is_some() {
                Some(T::default())
            } else {
                None
            }
        },
    }
}

/// The Devin sign-in read from `credentials.toml`.
pub struct DevinCredentials {
    /// `windsurf_api_key`.
    pub api_key: String,
    /// `api_server_url` without trailing slashes.
    pub server: String,
}

/// The server base: `api_server_url`, or Codeium's public server, with
/// trailing slashes removed.
pub open spec fn server_base(api_server_url: Option<Seq<char>>) -> Seq<char> {
    trim_end_char(
        match api_server_url {
            Some(u) => u,
            None => "https://server.codeium.com"@,
        },
        '/',
    )
}

/// A string option by its view.
pub open spec fn opt_view(s: Option<String>) -> Option<Seq<char>> {
    match s {
        Some(v) => Some(v@),
        None => None,
    }
}

/// The sign-in as (key, server base), or the error: a missing key, or a
/// server that is not reached over HTTPS (a credential is only ever sent to
/// its vendor over HTTPS).
pub open spec fn credentials_spec(api_key: Option<Seq<char>>, api_server_url: Option<Seq<char>>) -> Result<
    (Seq<char>, Seq<char>),
    Seq<char>,
> {
    match api_key {
        None => Err("credentials.toml has no windsurf_api_key"@),
        Some(k) => if is_prefix_of("https://"@, server_base(api_server_url)) {
            Ok((k, server_base(api_server_url)))
        } else {
            Err("credentials.toml api_server_url is not an https:// URL"@)
        },
    }
}

/// Credentials by their view.
pub open spec fn credentials_view(res: Result<DevinCredentials, String>) -> Result<
    (Seq<char>, Seq<char>),
    Seq<char>,
> {
    match res {
        Ok(c) => Ok((c.api_key@, c.server@)),
        Err(e) => Err(e@),
    }
}

/// The sign-in described by the `windsurf_api_key` and `api_server_url`
/// string entries of `credentials.toml`.
pub fn devin_credentials(api_key: Option<String>, api_server_url: Option<String>) -> (res: Result<
    DevinCredentials,
    String,
>)
    ensures
        credentials_view(res) == credentials_spec(opt_view(api_key), opt_view(api_server_url)),
        res matches Ok(c) ==> is_prefix_of("https://"@, c.server@),
{
    let key = match api_key {
        Some(k) => k,
        None => {
            return Err(String::from_str("credentials.toml has no windsurf_api_key"));
        },
    };
    let server = match &api_server_url {
        Some(u) => trim_end_matches_char(u.as_str(), '/'),
        None => trim_end_matches_char("https://server.codeium.com", '/'),
    };
    if !starts_with(server.as_str(), "https://") {
        return Err(String::from_str("credentials.toml api_server_url is not an https:// URL"));
    }
    Ok(DevinCredentials { api_key: key, server })
}

/// The sign-in a `credentials.toml` text describes: its parse error, or as
/// `credentials_spec` says of its string entries.
pub open spec fn credentials_from_toml_spec(raw: Seq<char>) -> Result<(Seq<char>, Seq<char>), Seq<char>> {
    match toml_str_entry(raw, "windsurf_api_key"@) {
        Err(e) => Err("parse credentials.toml: "@ + e),
        Ok(key) => match toml_str_entry(raw, "api_server_url"@) {
            Err(e) => Err("parse credentials.toml: "@ + e),
            Ok(url) => credentials_spec(key, url),
        },
    }
}

/// The sign-in described by the text of `credentials.toml`.
pub fn credentials_from_toml(raw: &str) -> (res: Result<DevinCredentials, String>)
    ensures
        credentials_view(res) == credentials_from_toml_spec(raw@),
        res matches Ok(c) ==> is_prefix_of("https://"@, c.server@),
{
    let key = match toml_string_entry(raw, "windsurf_api_key") {
        Ok(k) => k,
        Err(e) => {
            let mut msg = String::from_str("parse credentials.toml: ");
            msg.append(e.as_str());
            return Err(msg);
        },
    };
    let url = match toml_string_entry(raw, "api_server_url") {
        Ok(u) => u,
        Err(e) => {
            let mut msg = String::from_str("parse credentials.toml: ");
            msg.append(e.as_str());
            return Err(msg);
        },
    };
    devin_credentials(key, url)
}

/// The `GetUserStatus` Connect RPC endpoint on `server`.
pub fn status_url(server: &str) -> (url: String)
    ensures
        url@ == server@ + "/exa.seat_management_pb.SeatManagementService/GetUserStatus"@,
{
    let mut url = String::from_str(server);
    url.append("/exa.seat_management_pb.SeatManagementService/GetUserStatus");
    url
}

/// The `GetUserStatus` request: where it goes, its headers, and the
/// `metadata` object of its JSON body as (field, string value) pairs. The
/// server expects an IDE-shaped client identity and the Connect RPC
/// protocol header.
pub struct StatusRequest {
    pub url: String,
    pub headers: Vec<(String, String)>,
    pub metadata: Vec<(String, String)>,
}

/// Pairs of strings by their views.
pub open spec fn pairs_view(h: Seq<(String, String)>) -> Seq<(Seq<char>, Seq<char>)> {
    h.map_values(|p: (String, String)| (p.0@, p.1@))
}

/// The `metadata` fields sent with the API key `key`.
pub open spec fn status_metadata(key: Seq<char>) -> Seq<(Seq<char>, Seq<char>)> {
    seq![
        ("apiKey"@, key),
        ("ideName"@, "devin"@),
        ("ideVersion"@, "1.108.2"@),
        ("extensionName"@, "devin"@),
        ("extensionVersion"@, "1.108.2"@),
        ("locale"@, "en"@),
    ]
}

fn string_pair(a: &str, b: &str) -> (p: (String, String))
    ensures
        p.0@ == a@,
        p.1@ == b@,
{
    (String::from_str(a), String::from_str(b))
}

/// The `GetUserStatus` request for a sign-in: the key goes only into the
/// body, and only to the sign-in's own (HTTPS) server.
pub fn status_request(c: &DevinCredentials) -> (req: StatusRequest)
    ensures
        req.url@ == c.server@ + "/exa.seat_management_pb.SeatManagementService/GetUserStatus"@,
        pairs_view(req.headers@) == seq![
            ("Content-Type"@, "application/json"@),
            ("Connect-Protocol-Version"@, "1"@),
        ],
        pairs_view(req.metadata@) == status_metadata(c.api_key@),
        is_prefix_of("https://"@, c.server@) ==> is_prefix_of("https://"@, req.url@),
{
    let mut headers: Vec<(String, String)> = Vec::new();
    headers.push(string_pair("Content-Type", "application/json"));
    headers.push(string_pair("Connect-Protocol-Version", "1"));
    let mut metadata: Vec<(String, String)> = Vec::new();
    metadata.push(string_pair("apiKey", c.api_key.as_str()));
    metadata.push(string_pair("ideName", "devin"));
    metadata.push(string_pair("ideVersion", "1.108.2"));
    metadata.push(string_pair("extensionName", "devin"));
    metadata.push(string_pair("extensionVersion", "1.108.2"));
    metadata.push(string_pair("locale", "en"));
    assert(pairs_view(headers@) =~= seq![
        ("Content-Type"@, "application/json"@),
        ("Connect-Protocol-Version"@, "1"@),
    ]);
    assert(pairs_view(metadata@) =~= status_metadata(c.api_key@));
    let url = status_url(c.server.as_str());
    proof {
        reveal_strlit("https://");
        if is_prefix_of("https://"@, c.server@) {
            assert(url@.subrange(0, 8) =~= c.server@.subrange(0, 8));
        }
    }
    StatusRequest { url, headers, metadata }
}

/// The plan fields of a status answer.
pub struct PlanInfo {
    /// `planInfo.planName`.
    pub plan: Option<String>,
    /// `planInfo.hideDailyQuota`, false when absent.
    pub hide_daily: bool,
}

/// The plan fields of a status answer body, or its error.
pub open spec fn plan_info_spec(body: Seq<char>) -> Result<(Option<Seq<char>>, bool), Seq<char>> {
    match json_parse_error(body) {
        Some(e) => Err("status parse: "@ + e),
        None => if !json_has_at(body, "/userStatus/planStatus"@) {
            Err("response has no userStatus.planStatus"@)
        } else {
            Ok(
                (
                    json_str_at(body, "/userStatus/planStatus/planInfo/planName"@),
                    match json_bool_at(body, "/userStatus/planStatus/planInfo/hideDailyQuota"@) {
                        Some(b) => b,
                        None => false,
                    },
                ),
            )
        },
    }
}

/// The plan fields of the body of a `GetUserStatus` answer.
pub fn plan_status_text(body: &str) -> (res: Result<PlanInfo, String>)
    ensures
        match res {
            Ok(p) => plan_info_spec(body@) == Ok::<(Option<Seq<char>>, bool), Seq<char>>(
                (opt_view(p.plan), p.hide_daily),
            ),
            Err(e) => plan_info_spec(body@) == Err::<(Option<Seq<char>>, bool), Seq<char>>(e@),
        },
{
    if let Some(e) = json_parse_error_of(body) {
        let mut msg = String::from_str("status parse: ");
        msg.append(e.as_str());
        return Err(msg);
    }
    if !json_present_at(body, "/userStatus/planStatus") {
        return Err(String::from_str("response has no userStatus.planStatus"));
    }
    let plan = json_string_at(body, "/userStatus/planStatus/planInfo/planName");
    let hide_daily = match json_boolean_at(body, "/userStatus/planStatus/planInfo/hideDailyQuota") {
        Some(b) => b,
        None => false,
    };
    Ok(PlanInfo { plan, hide_daily })
}

/// The error a `GetUserStatus` answer with this HTTP status stands for:
/// rejected credentials on 401 and 403, any other status outside 2xx as
/// itself (`status_text` is the status as displayed, e.g. "404 Not Found").
pub open spec fn status_failure_spec(code: u16, status_text: Seq<char>) -> Option<Seq<char>> {
    if code == 401 || code == 403 {
        Some("Devin credentials were rejected — sign in with the Devin CLI again"@)
    } else if !(200 <= code <= 299) {
        Some("status endpoint: HTTP "@ + status_text)
    } else {
        None
    }
}

/// The error a `GetUserStatus` answer with this HTTP status stands for, if any.
pub fn status_failure(code: u16, status_text: &str) -> (res: Option<String>)
    ensures
        match res {
            Some(e) => status_failure_spec(code, status_text@) == Some(e@),
            None => status_failure_spec(code, status_text@) is None,
        },
{
    if code == 401 || code == 403 {
        Some(String::from_str("Devin credentials were rejected — sign in with the Devin CLI again"))
    } else if !(200 <= code && code <= 299) {
        let mut e = String::from_str("status endpoint: HTTP ");
        e.append(status_text);
        Some(e)
    } else {
        None
    }
}

/// The quota window a row meters; its reset time is that window's reset.
#[derive(Clone, Copy, PartialEq, Eq, Structural)]
pub enum QuotaWindow {
    Daily,
    Weekly,
}

/// One quota row of the Devin card: the window and the percent remaining.
pub struct QuotaRow<N> {
    pub window: QuotaWindow,
    pub remaining: N,
}

/// The quota rows, in order: the daily quota unless the plan hides it, and
/// the weekly quota; with no weekly quota reported, a hidden daily quota is
/// shown in the weekly row so the card stays meaningful.
pub open spec fn quota_rows_spec<N>(hide_daily: bool, daily: Option<N>, weekly: Option<N>) -> Seq<
    (QuotaWindow, N),
> {
    let d = if !hide_daily && daily is Some {
        seq![(QuotaWindow::Daily, daily->0)]
    } else {
        Seq::empty()
    };
    let w = if weekly is Some {
        seq![(QuotaWindow::Weekly, weekly->0)]
    } else if hide_daily && daily is Some {
        seq![(QuotaWindow::Weekly, daily->0)]
    } else {
        Seq::empty()
    };
    d + w
}

/// Rows as `(window, remaining)` pairs.
pub open spec fn rows_view<N>(rows: Seq<QuotaRow<N>>) -> Seq<(QuotaWindow, N)> {
    rows.map_values(|r: QuotaRow<N>| (r.window, r.remaining))
}

/// The quota rows of a status answer, or the "no quota data" error when
/// neither a quota row nor an extra-balance row (`has_overage`) would show.
pub fn quota_rows<N: Copy>(
    hide_daily: bool,
    daily: Option<N>,
    weekly: Option<N>,
    has_overage: bool,
) -> (res: Result<Vec<QuotaRow<N>>, String>)
    ensures
        match res {
            Ok(rows) => rows_view(rows@) == quota_rows_spec(hide_daily, daily, weekly) && (
            quota_rows_spec(hide_daily, daily, weekly).len() > 0 || has_overage),
            Err(e) => quota_rows_spec(hide_daily, daily, weekly).len() == 0 && !has_overage
                && e@ == "no quota data in response"@,
        },
{
    let mut rows: Vec<QuotaRow<N>> = Vec::new();
    if !hide_daily {
        if let Some(r) = daily {
            rows.push(QuotaRow { window: QuotaWindow::Daily, remaining: r });
        }
    }
    let ghost after_daily = rows@;
    match weekly {
        Some(r) => rows.push(QuotaRow { window: QuotaWindow::Weekly, remaining: r }),
        None => {
            if hide_daily {
                if let Some(r) = daily {
                    rows.push(QuotaRow { window: QuotaWindow::Weekly, remaining: r });
                }
            }
        },
    }
    assert(rows_view(rows@) =~= quota_rows_spec(hide_daily, daily, weekly));
    if rows.len() == 0 && !has_overage {
        return Err(String::from_str("no quota data in response"));
    }
    Ok(rows)
}

/// The quota rows show each window at most once, Daily first. There is a
/// Daily row exactly when the plan shows its daily quota and reports one,
/// and it shows the daily figure. There is a Weekly row exactly when a
/// weekly figure is reported or the daily quota is hidden and reported; it
/// shows the weekly figure, and the daily one only when the daily quota is
/// hidden and no weekly figure came.
pub proof fn lemma_quota_rows_windows<N>(hide_daily: bool, daily: Option<N>, weekly: Option<N>)
    ensures
        ({
            let rows = quota_rows_spec(hide_daily, daily, weekly);
            &&& forall|i: int, j: int|
                0 <= i < j < rows.len() ==> #[trigger] rows[i].0 != #[trigger] rows[j].0
            &&& forall|i: int|
                0 <= i < rows.len() && #[trigger] rows[i].0 == QuotaWindow::Weekly ==> i == rows.len() - 1
            &&& (exists|i: int| 0 <= i < rows.len() && #[trigger] rows[i].0 == QuotaWindow::Daily) <==> (
            !hide_daily && daily is Some)
            &&& (exists|i: int| 0 <= i < rows.len() && #[trigger] rows[i].0 == QuotaWindow::Weekly) <==> (
            weekly is Some || (hide_daily && daily is Some))
            &&& forall|i: int|
                0 <= i < rows.len() && #[trigger] rows[i].0 == QuotaWindow::Daily ==> daily == Some(rows[i].1)
            &&& forall|i: int|
                0 <= i < rows.len() && #[trigger] rows[i].0 == QuotaWindow::Weekly ==> (weekly == Some(
                    rows[i].1,
                ) || (weekly is None && hide_daily && daily == Some(rows[i].1)))
        }),
{
    let rows = quota_rows_spec(hide_daily, daily, weekly);
    if !hide_daily && daily is Some {
        assert(rows[0].0 == QuotaWindow::Daily);
    }
    if weekly is Some || (hide_daily && daily is Some) {
        assert(rows[rows.len() - 1].0 == QuotaWindow::Weekly);
    }
}

/// The row label of a quota window.
pub fn window_label(w: QuotaWindow) -> (label: String)
    ensures
        label@ == (match w {
            QuotaWindow::Daily => "Daily"@,
            QuotaWindow::Weekly => "Weekly"@,
        }),
{
    match w {
        QuotaWindow::Daily => String::from_str("Daily"),
        QuotaWindow::Weekly => String::from_str("Weekly"),
    }
}

/// The length of a quota window in milliseconds.
pub fn window_period_ms(w: QuotaWindow) -> (ms: i64)
    ensures
        ms == (match w {
            QuotaWindow::Daily => 86_400_000int,
            QuotaWindow::Weekly => 604_800_000int,
        }),
{
    match w {
        QuotaWindow::Daily => 86_400_000,
        QuotaWindow::Weekly => 7 * 86_400_000,
    }
}

} // verus!
