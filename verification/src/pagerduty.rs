use vstd::prelude::*;
use vstd::string::*;

verus! {

/// Character budget for a summary cell; longer summaries are shortened with
/// an ellipsis marker so one row keeps a bounded height.
pub const SUMMARY_BUDGET: usize = 100;

/// One incident row as the table shows it.
pub struct Incident {
    pub id: String,
    pub summary: String,
    pub service: String,
    pub status: String,
    pub created_at: String,
    pub triggered: bool,
}

/// Mathematical image of an [`Incident`]: every text field as a sequence of
/// characters.
pub ghost struct IncidentView {
    pub id: Seq<char>,
    pub summary: Seq<char>,
    pub service: Seq<char>,
    pub status: Seq<char>,
    pub created_at: Seq<char>,
    pub triggered: bool,
}

impl View for Incident {
    type V = IncidentView;

    open spec fn view(&self) -> IncidentView {
        IncidentView {
            id: self.id@,
            summary: self.summary@,
            service: self.service@,
            status: self.status@,
            created_at: self.created_at@,
            triggered: self.triggered,
        }
    }
}

impl DeepView for Incident {
    type V = IncidentView;

    open spec fn deep_view(&self) -> IncidentView {
        self.view()
    }
}

impl Incident {
    /// The three cells of this row, in display order.
    pub fn ref_array(&self) -> (r: [&String; 3])
        ensures
            r[0]@ == self@.status,
            r[1]@ == self@.summary,
            r[2]@ == self@.created_at,
    {
        [&self.status, &self.summary, &self.created_at]
    }

    pub fn status(&self) -> (r: &str)
        ensures
            r@ == self@.status,
    {
        self.status.as_str()
    }

    pub fn summary(&self) -> (r: &str)
        ensures
            r@ == self@.summary,
    {
        self.summary.as_str()
    }

    pub fn created_at(&self) -> (r: &str)
        ensures
            r@ == self@.created_at,
    {
        self.created_at.as_str()
    }

    pub fn id(&self) -> (r: &str)
        ensures
            r@ == self@.id,
    {
        self.id.as_str()
    }

    pub fn triggered(&self) -> (r: &bool)
        ensures
            *r == self@.triggered,
    {
        &self.triggered
    }
}

/// The synthetic row shown when the provider reports no open incident, so
/// that the table and the cursor never face an empty list.
pub open spec fn placeholder_view() -> IncidentView {
    IncidentView {
        id: "---------"@,
        summary: " - NO INCIDENTS | TIME FOR A BREAK - "@,
        service: ""@,
        status: "---------"@,
        created_at: "---------"@,
        triggered: false,
    }
}

pub fn placeholder_incident() -> (r: Incident)
    ensures
        r@ == placeholder_view(),
{
    Incident {
        id: String::from_str("---------"),
        summary: String::from_str(" - NO INCIDENTS | TIME FOR A BREAK - "),
        service: String::from_str(""),
        status: String::from_str("---------"),
        created_at: String::from_str("---------"),
        triggered: false,
    }
}

/// One incident as the provider reports it, already reduced to plain values:
/// the fields the dashboard reads, nothing else.
pub struct RawIncident {
    pub id: String,
    pub summary: String,
    pub created_at: String,
    pub status: String,
    pub service: String,
    pub has_priority: bool,
    pub assignee: Option<String>,
}

/// Mathematical image of a [`RawIncident`].
pub ghost struct RawIncidentView {
    pub id: Seq<char>,
    pub summary: Seq<char>,
    pub created_at: Seq<char>,
    pub status: Seq<char>,
    pub service: Seq<char>,
    pub has_priority: bool,
    pub assignee: Option<Seq<char>>,
}

impl View for RawIncident {
    type V = RawIncidentView;

    open spec fn view(&self) -> RawIncidentView {
        RawIncidentView {
            id: self.id@,
            summary: self.summary@,
            created_at: self.created_at@,
            status: self.status@,
            service: self.service@,
            has_priority: self.has_priority,
            assignee: match self.assignee {
                Option::Some(a) => Option::Some(a@),
                Option::None => Option::None,
            },
        }
    }
}

impl DeepView for RawIncident {
    type V = RawIncidentView;

    open spec fn deep_view(&self) -> RawIncidentView {
        self.view()
    }
}

/// A summary over the budget is cut to the budget and marked with an
/// ellipsis; a short one is kept whole.
pub open spec fn truncated_summary(s: Seq<char>) -> Seq<char> {
    if s.len() > SUMMARY_BUDGET {
        s.subrange(0, SUMMARY_BUDGET as int) + "..."@
    } else {
        s
    }
}

/// An elevated-priority incident has its status replaced by a fixed
/// high-visibility marker.
pub open spec fn normalized_status(status: Seq<char>, has_priority: bool) -> Seq<char> {
    if has_priority {
        "/!\\ P1 /!\\"@
    } else {
        status
    }
}

/// The assignee shown in the wide view: the first assignee, or a dashed
/// filler when nobody is assigned.
pub open spec fn displayed_assignee(assignee: Option<Seq<char>>) -> Seq<char> {
    match assignee {
        Option::Some(a) => a,
        Option::None => "----------"@,
    }
}

/// How one provider record becomes one table row. With `all_incidents` the
/// timestamp cell is annotated with the assignee on a second line; the
/// summary cell always carries the owning service on its first line. The
/// triggered flag follows the raw provider status: the high-visibility
/// marker is a display label and does not take an incident out of the
/// triggered state.
pub open spec fn built_incident(raw: RawIncidentView, all_incidents: bool) -> IncidentView {
    IncidentView {
        id: raw.id,
        summary: raw.service + "\n"@ + truncated_summary(raw.summary),
        service: raw.service,
        status: normalized_status(raw.status, raw.has_priority),
        created_at: if all_incidents {
            raw.created_at + "\n"@ + displayed_assignee(raw.assignee)
        } else {
            raw.created_at
        },
        triggered: raw.status == "triggered"@,
    }
}

/// Turns one provider record into one table row; see [`built_incident`].
pub fn build_incident(raw: RawIncident, all_incidents: bool) -> (r: Incident)
    ensures
        r@ == built_incident(raw@, all_incidents),
{
    let triggered: bool = raw.status == String::from_str("triggered");
    let status: String = if raw.has_priority {
        String::from_str("/!\\ P1 /!\\")
    } else {
        raw.status
    };

    let summary: String = if raw.summary.as_str().unicode_len() > SUMMARY_BUDGET {
        crate::utils::split_str(raw.summary, 100)
    } else {
        raw.summary
    };

    let assignee: String = match raw.assignee {
        Option::Some(a) => a,
        Option::None => String::from_str("----------"),
    };

    let created_at: String = if all_incidents {
        raw.created_at.concat("\n").concat(assignee.as_str())
    } else {
        raw.created_at
    };

    Incident {
        id: raw.id,
        summary: raw.service.clone().concat("\n").concat(summary.as_str()),
        service: raw.service,
        status,
        created_at,
        triggered,
    }
}

/// What a whole provider response becomes: every record built into a row, or
/// the single placeholder row when the response is empty.
pub open spec fn built_incidents(raws: Seq<RawIncidentView>, all_incidents: bool) -> Seq<
    IncidentView,
> {
    if raws.len() == 0 {
        seq![placeholder_view()]
    } else {
        raws.map_values(|raw: RawIncidentView| built_incident(raw, all_incidents))
    }
}

/// Builds the table rows for one provider response; never returns an empty
/// list (see [`built_incidents`]).
pub fn build_incidents(raws: Vec<RawIncident>, all_incidents: bool) -> (r: Vec<Incident>)
    ensures
        r.deep_view() == built_incidents(raws.deep_view(), all_incidents),
        r@.len() >= 1,
{
    if raws.len() == 0 {
        let mut out: Vec<Incident> = Vec::new();
        out.push(placeholder_incident());
        proof {
            assert(out.deep_view() =~= built_incidents(raws.deep_view(), all_incidents));
        }
        return out;
    }
    let ghost raws_view: Seq<RawIncidentView> = raws.deep_view();
    let n: usize = raws.len();
    let mut rest: Vec<RawIncident> = raws;
    let mut out: Vec<Incident> = Vec::new();
    let mut i: usize = 0;
    while i < n
        invariant
            i <= n,
            raws_view.len() == n,
            rest@.len() == n - i,
            rest.deep_view() =~= raws_view.subrange(i as int, n as int),
            out.deep_view() =~= raws_view.subrange(0, i as int).map_values(
                |raw: RawIncidentView| built_incident(raw, all_incidents),
            ),
        decreases n - i,
    {
        let ghost rest_before: Seq<RawIncidentView> = rest.deep_view();
        let raw = rest.remove(0);
        proof {
            assert(raw.deep_view() == rest_before[0]);
            assert forall|j: int| 0 <= j < rest@.len() implies rest.deep_view()[j] == raws_view[
                i + 1 + j
            ] by {
                assert(rest.deep_view()[j] == rest@[j].deep_view());
                assert(rest_before[j + 1] == raws_view[i + j + 1]);
            }
            assert(rest.deep_view() =~= raws_view.subrange(i as int + 1, n as int));
        }
        let ghost out_before: Seq<IncidentView> = out.deep_view();
        out.push(build_incident(raw, all_incidents));
        i = i + 1;
        proof {
            let goal = raws_view.subrange(0, i as int).map_values(
                |raw: RawIncidentView| built_incident(raw, all_incidents),
            );
            assert(out_before.len() == i - 1);
            assert(out@.len() == i);
            assert(out.deep_view().len() == i);
            assert forall|j: int| 0 <= j < i implies out.deep_view()[j] == goal[j] by {
                assert(out.deep_view()[j] == out@[j].deep_view());
                assert(goal[j] == built_incident(raws_view[j], all_incidents));
                if j < i - 1 {
                    assert(out_before[j] == out@[j].deep_view());
                }
            }
            assert(out.deep_view() =~= goal);
        }
    }
    proof {
        assert(raws_view.subrange(0, n as int) =~= raws_view);
        assert(out.deep_view() =~= built_incidents(raws_view, all_incidents));
    }
    out
}

/// The display order of one refresh: the page of triggered incidents comes
/// first, then the page of acknowledged ones, and each page is reversed —
/// the provider lists newest first, the table shows oldest first.
pub open spec fn assembled_pages(
    triggered_page: Seq<RawIncidentView>,
    acknowledged_page: Seq<RawIncidentView>,
) -> Seq<RawIncidentView> {
    triggered_page.reverse() + acknowledged_page.reverse()
}

/// Appends the records of `page` to `out` in reverse order.
fn push_reversed(out: &mut Vec<RawIncident>, page: Vec<RawIncident>)
    ensures
        final(out).deep_view() == old(out).deep_view() + page.deep_view().reverse(),
{
    let ghost out0: Seq<RawIncidentView> = out.deep_view();
    let ghost pv: Seq<RawIncidentView> = page.deep_view();
    let n: usize = page.len();
    let mut page = page;
    let mut k: usize = 0;
    while k < n
        invariant
            k <= n,
            pv.len() == n,
            page@.len() == n - k,
            page.deep_view() =~= pv.subrange(0, (n - k) as int),
            out.deep_view() =~= out0 + pv.reverse().subrange(0, k as int),
        decreases n - k,
    {
        proof {
            assert(pv.reverse().len() == n);
            assert(out.deep_view().len() == out0.len() + k);
            assert(out@.len() == out0.len() + k);
        }
        let ghost page_pre: Seq<RawIncidentView> = page.deep_view();
        let ghost out_pre: Seq<RawIncidentView> = out.deep_view();
        let ghost out_pre_elems: Seq<RawIncident> = out@;
        let raw = page.pop().unwrap();
        proof {
            assert(raw.deep_view() == page_pre[(n - k - 1) as int]);
            assert forall|j: int| 0 <= j < page@.len() implies page.deep_view()[j] == pv[j] by {
                assert(page.deep_view()[j] == page@[j].deep_view());
                assert(page_pre[j] == pv[j]);
            }
            assert(page.deep_view() =~= pv.subrange(0, (n - k - 1) as int));
            assert(pv.reverse()[k as int] == pv[(n - 1 - k) as int]);
        }
        out.push(raw);
        k = k + 1;
        proof {
            let goal = out0 + pv.reverse().subrange(0, k as int);
            assert(out@.len() == out0.len() + k);
            assert forall|j: int| 0 <= j < out@.len() implies out.deep_view()[j] == goal[j] by {
                assert(out.deep_view()[j] == out@[j].deep_view());
                if j < out@.len() - 1 {
                    assert(out@[j] == out_pre_elems[j]);
                    assert(out_pre[j] == out_pre_elems[j].deep_view());
                } else {
                    assert(goal[j] == pv.reverse()[(k - 1) as int]);
                }
            }
            assert(out.deep_view() =~= goal);
        }
    }
    proof {
        assert(pv.reverse().subrange(0, n as int) =~= pv.reverse());
    }
}

/// Joins the two provider pages in display order; see [`assembled_pages`].
pub fn assemble_pages(triggered_page: Vec<RawIncident>, acknowledged_page: Vec<RawIncident>) -> (r:
    Vec<RawIncident>)
    ensures
        r.deep_view() == assembled_pages(
            triggered_page.deep_view(),
            acknowledged_page.deep_view(),
        ),
{
    let ghost tv: Seq<RawIncidentView> = triggered_page.deep_view();
    let ghost av: Seq<RawIncidentView> = acknowledged_page.deep_view();
    let mut r: Vec<RawIncident> = Vec::new();
    push_reversed(&mut r, triggered_page);
    push_reversed(&mut r, acknowledged_page);
    proof {
        assert(Seq::<RawIncidentView>::empty() + tv.reverse() =~= tv.reverse());
        assert(r.deep_view() =~= tv.reverse() + av.reverse());
    }
    r
}

/// Credentials and addressing for the incident provider, fixed at startup.
pub struct PagerDuty {
    api_key: String,
    current_user_id: String,
    domain: String,
}

/// Mathematical image of a [`PagerDuty`] handle.
pub ghost struct PagerDutyView {
    pub api_key: Seq<char>,
    pub current_user_id: Seq<char>,
    pub domain: Seq<char>,
}

impl View for PagerDuty {
    type V = PagerDutyView;

    closed spec fn view(&self) -> PagerDutyView {
        PagerDutyView {
            api_key: self.api_key@,
            current_user_id: self.current_user_id@,
            domain: self.domain@,
        }
    }
}

impl PagerDuty {
    /// The caller resolves the operator's own user id first (one provider
    /// round trip) and hands it in here as a plain value.
    pub fn new(domain: &str, api_key: &str, current_user_id: String) -> (r: PagerDuty)
        ensures
            r@.domain == domain@,
            r@.api_key == api_key@,
            r@.current_user_id == current_user_id@,
    {
        PagerDuty {
            domain: String::from_str(domain),
            api_key: String::from_str(api_key),
            current_user_id,
        }
    }

    pub fn get_pagerduty_api_key(&self) -> (r: &str)
        ensures
            r@ == self@.api_key,
    {
        self.api_key.as_str()
    }

    pub fn get_pagerduty_domain(&self) -> (r: &str)
        ensures
            r@ == self@.domain,
    {
        self.domain.as_str()
    }

    pub fn get_current_user_id(&self) -> (r: &str)
        ensures
            r@ == self@.current_user_id,
    {
        self.current_user_id.as_str()
    }
}

/// The listing request for one status value, scoped either to every open
/// incident or to those assigned to one operator.
pub open spec fn spec_incidents_request_url(
    all_incidents: bool,
    status: Seq<char>,
    user_id: Seq<char>,
) -> Seq<char> {
    if all_incidents {
        "https://api.pagerduty.com/incidents?statuses[]="@ + status + "&limit=100"@
    } else {
        "https://api.pagerduty.com/incidents?statuses[]="@ + status + "&user_ids[]="@ + user_id
            + "&limit=100"@
    }
}

/// Builds the URL that lists incidents with the given status, scoped by
/// `all_incidents`; see [`spec_incidents_request_url`].
pub fn incidents_request_url(all_incidents: bool, status: &str, user_id: &str) -> (r: String)
    ensures
        r@ == spec_incidents_request_url(all_incidents, status@, user_id@),
{
    let base: String = String::from_str("https://api.pagerduty.com/incidents?statuses[]=").concat(
        status,
    );
    if all_incidents {
        base.concat("&limit=100")
    } else {
        base.concat("&user_ids[]=").concat(user_id).concat("&limit=100")
    }
}

/// Builds the URL that resolves the operator behind the supplied API key.
pub fn current_user_request_url() -> (r: String)
    ensures
        r@ == "https://api.pagerduty.com/users/me"@,
{
    String::from_str("https://api.pagerduty.com/users/me")
}

/// Builds the URL addressed by the acknowledge call for one incident.
pub fn acknowledge_request_url(id: &str) -> (r: String)
    ensures
        r@ == "https://api.pagerduty.com/incidents/"@ + id@,
{
    String::from_str("https://api.pagerduty.com/incidents/").concat(id)
}

/// Builds the authorization header value carrying the API key.
pub fn auth_header_value(api_key: &str) -> (r: String)
    ensures
        r@ == "Token token="@ + api_key@,
{
    String::from_str("Token token=").concat(api_key)
}

/// The request body that moves an incident to the acknowledged status.
pub fn acknowledge_body() -> (r: &'static str)
    ensures
        r@
            == "{\n  \"incident\": {\n    \"type\": \"incident_reference\",\n    \"status\": \"acknowledged\"\n  }\n}"@,
{
    "{\n  \"incident\": {\n    \"type\": \"incident_reference\",\n    \"status\": \"acknowledged\"\n  }\n}"
}

/// The deep link opened for one incident: the provider domain plus the
/// incident id.
pub open spec fn spec_incident_open_url(domain: Seq<char>, id: Seq<char>) -> Seq<char> {
    "https://"@ + domain + ".pagerduty.com/incidents/"@ + id
}

/// Builds the deep link for one incident; see [`spec_incident_open_url`].
pub fn incident_open_url(domain: &str, id: &str) -> (r: String)
    ensures
        r@ == spec_incident_open_url(domain@, id@),
{
    String::from_str("https://").concat(domain).concat(".pagerduty.com/incidents/").concat(id)
}

} // verus!
