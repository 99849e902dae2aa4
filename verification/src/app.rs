use vstd::arithmetic::div_mod::{
    lemma_add_mod_noop, lemma_mod_bound, lemma_mod_self_0, lemma_small_mod,
};
use vstd::prelude::*;
use vstd::string::*;

use crate::actions::REFRESH_RATE;
use crate::config::AppConfig;
use crate::pagerduty::{Incident, IncidentView, PagerDuty, PagerDutyView};
use crate::utils::{display_width, lines_spec, split_lines, str_width};

verus! {

/// The application state store: the single source of truth that the
/// dispatcher mutates and the renderer reads.
pub struct App {
    pub items: Vec<Incident>,
    pub selected_index: usize,
    pub pager_duty: PagerDuty,
    pub longest_item_lens: (u16, u16, u16),
    pub refreshing: bool,
    pub stale: bool,
    pub should_quit: bool,
    pub hide_ack: bool,
    pub show_all_incidents: bool,
    pub refresh_rate: Option<i64>,
    pub ticker: i64,
}

/// Mathematical image of the whole application state.
pub ghost struct AppView {
    pub items: Seq<IncidentView>,
    pub selected_index: int,
    pub pager_duty: PagerDutyView,
    pub longest_item_lens: (u16, u16, u16),
    pub refreshing: bool,
    pub stale: bool,
    pub should_quit: bool,
    pub hide_ack: bool,
    pub show_all_incidents: bool,
    pub refresh_rate: Option<i64>,
    pub ticker: int,
}

impl View for App {
    type V = AppView;

    open spec fn view(&self) -> AppView {
        AppView {
            items: self.items.deep_view(),
            selected_index: self.selected_index as int,
            pager_duty: self.pager_duty@,
            longest_item_lens: self.longest_item_lens,
            refreshing: self.refreshing,
            stale: self.stale,
            should_quit: self.should_quit,
            hide_ack: self.hide_ack,
            show_all_incidents: self.show_all_incidents,
            refresh_rate: self.refresh_rate,
            ticker: self.ticker as int,
        }
    }
}

impl AppView {
    /// The standing invariant: the list is never empty, the cursor points at
    /// one of its rows, and the tick counter is a machine integer's worth of
    /// iterations.
    pub open spec fn wf(self) -> bool {
        &&& self.items.len() >= 1
        &&& 0 <= self.selected_index < self.items.len()
        &&& 0 <= self.ticker <= i64::MAX
    }
}

/// Where the cursor lands after one step down: one row further, back to the
/// top from the last row.
pub open spec fn next_index(i: int, len: int) -> int {
    if i >= len - 1 {
        0
    } else {
        i + 1
    }
}

/// Where the cursor lands after one step up: one row back, to the last row
/// from the top.
pub open spec fn prev_index(i: int, len: int) -> int {
    if i == 0 {
        len - 1
    } else {
        i - 1
    }
}

/// Law: on a non-empty list, stepping the cursor in either direction from a
/// valid row lands on a valid row.
pub proof fn lemma_navigation_in_bounds(i: int, len: int)
    requires
        len >= 1,
        0 <= i < len,
    ensures
        0 <= next_index(i, len) < len,
        0 <= prev_index(i, len) < len,
{
}

/// Law: stepping down from the last row wraps the cursor to the first.
pub proof fn lemma_next_wraps(i: int, len: int)
    requires
        len >= 1,
        i == len - 1,
    ensures
        next_index(i, len) == 0,
{
}

/// Law: stepping up from the first row wraps the cursor to the last.
pub proof fn lemma_previous_wraps(len: int)
    requires
        len >= 1,
    ensures
        prev_index(0, len) == len - 1,
{
}

/// How many frames pass between two automatic refreshes: the configured
/// interval in seconds (one minute when unset) times the frames per second.
pub open spec fn refresh_threshold(refresh_rate: Option<i64>) -> int {
    (match refresh_rate {
        Option::Some(r) => r as int,
        Option::None => 60,
    }) * (1000 as int / REFRESH_RATE as int)
}

/// Whether the coming frame reaches the refresh threshold.
pub open spec fn spec_tick_fires(s: AppView) -> bool {
    s.ticker + 1 >= refresh_threshold(s.refresh_rate)
}

/// One frame of the refresh ticker: the counter advances, and on reaching
/// the threshold it resets to zero while a refresh is marked outstanding.
pub open spec fn spec_tick(s: AppView) -> AppView {
    if spec_tick_fires(s) {
        AppView { ticker: 0, refreshing: true, ..s }
    } else {
        AppView {
            ticker: if s.ticker == i64::MAX {
                s.ticker
            } else {
                s.ticker + 1
            },
            ..s
        }
    }
}

/// The ticker state after `k` frames.
pub open spec fn spec_ticks(s: AppView, k: nat) -> AppView
    decreases k,
{
    if k == 0 {
        s
    } else {
        spec_tick(spec_ticks(s, (k - 1) as nat))
    }
}

/// Law: with the counter at zero and a positive threshold that a machine
/// integer can hold, the counter after `k` frames equals `k` modulo the
/// threshold, and the `k`-th frame fires exactly when `k` is a multiple of
/// the threshold — once per threshold-many main-loop iterations, with the
/// counter back at zero after each firing.
pub proof fn lemma_ticker_period(s: AppView, k: nat)
    requires
        s.ticker == 0,
        1 <= refresh_threshold(s.refresh_rate) <= i64::MAX,
    ensures
        spec_ticks(s, k).refresh_rate == s.refresh_rate,
        spec_ticks(s, k).ticker == k as int % refresh_threshold(s.refresh_rate),
        k >= 1 ==> (spec_tick_fires(spec_ticks(s, (k - 1) as nat)) <==> k as int
            % refresh_threshold(s.refresh_rate) == 0),
    decreases k,
{
    let t = refresh_threshold(s.refresh_rate);
    if k == 0 {
        lemma_small_mod(0, t as nat);
    } else {
        lemma_ticker_period(s, (k - 1) as nat);
        let prev = spec_ticks(s, (k - 1) as nat);
        lemma_mod_bound((k - 1) as int, t);
        lemma_mod_bound(k as int, t);
        if t == 1 {
            assert(prev.ticker == 0);
            assert(spec_tick_fires(prev));
            assert(spec_ticks(s, k).ticker == 0);
        } else {
            lemma_small_mod(1, t as nat);
            lemma_add_mod_noop((k - 1) as int, 1, t);
            if prev.ticker == t - 1 {
                lemma_mod_self_0(t);
                assert(k as int % t == 0);
                assert(spec_tick_fires(prev));
                assert(spec_ticks(s, k).ticker == 0);
            } else {
                lemma_small_mod((prev.ticker + 1) as nat, t as nat);
                assert(k as int % t == prev.ticker + 1);
                assert(!spec_tick_fires(prev));
                assert(prev.ticker < i64::MAX);
                assert(spec_ticks(s, k).ticker == prev.ticker + 1);
            }
        }
    }
}

/// The widest status cell, in displayed columns.
pub open spec fn max_status_width(items: Seq<IncidentView>) -> nat
    decreases items.len(),
{
    if items.len() == 0 {
        0
    } else {
        let rest = max_status_width(items.drop_last());
        let w = display_width(items.last().status);
        if w > rest {
            w
        } else {
            rest
        }
    }
}

/// The widest line among a sequence of lines, in displayed columns.
pub open spec fn max_line_width(ls: Seq<Seq<char>>) -> nat
    decreases ls.len(),
{
    if ls.len() == 0 {
        0
    } else {
        let rest = max_line_width(ls.drop_last());
        let w = display_width(ls.last());
        if w > rest {
            w
        } else {
            rest
        }
    }
}

/// The widest summary line over all rows, in displayed columns.
pub open spec fn max_summary_width(items: Seq<IncidentView>) -> nat
    decreases items.len(),
{
    if items.len() == 0 {
        0
    } else {
        let rest = max_summary_width(items.drop_last());
        let w = max_line_width(lines_spec(items.last().summary));
        if w > rest {
            w
        } else {
            rest
        }
    }
}

/// The widest timestamp cell, in displayed columns.
pub open spec fn max_created_width(items: Seq<IncidentView>) -> nat
    decreases items.len(),
{
    if items.len() == 0 {
        0
    } else {
        let rest = max_created_width(items.drop_last());
        let w = display_width(items.last().created_at);
        if w > rest {
            w
        } else {
            rest
        }
    }
}

/// The three column widths handed to the table layout, each reduced to a
/// 16-bit cell as the renderer stores them.
pub open spec fn spec_constraint_lens(items: Seq<IncidentView>) -> (u16, u16, u16) {
    (
        (max_status_width(items) % 0x10000) as u16,
        (max_summary_width(items) % 0x10000) as u16,
        (max_created_width(items) % 0x10000) as u16,
    )
}

/// Measures every row and returns the widest status, summary line and
/// timestamp, in that order; see [`spec_constraint_lens`].
pub fn constraint_len_calculator(items: &Vec<Incident>) -> (r: (u16, u16, u16))
    ensures
        r == spec_constraint_lens(items.deep_view()),
{
    let ghost dv: Seq<IncidentView> = items.deep_view();
    let n: usize = items.len();
    let mut name_len: usize = 0;
    let mut address_len: usize = 0;
    let mut email_len: usize = 0;
    let mut i: usize = 0;
    while i < n
        invariant
            i <= n,
            n == dv.len(),
            n == items@.len(),
            dv == items.deep_view(),
            name_len as nat == max_status_width(dv.subrange(0, i as int)),
            address_len as nat == max_summary_width(dv.subrange(0, i as int)),
            email_len as nat == max_created_width(dv.subrange(0, i as int)),
        decreases n - i,
    {
        proof {
            assert(dv.subrange(0, i + 1).drop_last() =~= dv.subrange(0, i as int));
            assert(dv.subrange(0, i + 1).last() == dv[i as int]);
            assert(dv[i as int] == items@[i as int].deep_view());
        }
        let item: &Incident = &items[i];

        let w_status: usize = str_width(item.status.as_str());
        if w_status > name_len {
            name_len = w_status;
        }

        let lines: Vec<String> = split_lines(item.summary.as_str());
        let ghost lv: Seq<Seq<char>> = lines.deep_view();
        let m: usize = lines.len();
        let mut line_max: usize = 0;
        let mut j: usize = 0;
        while j < m
            invariant
                j <= m,
                m == lv.len(),
                m == lines@.len(),
                lv == lines.deep_view(),
                line_max as nat == max_line_width(lv.subrange(0, j as int)),
            decreases m - j,
        {
            proof {
                assert(lv.subrange(0, j + 1).drop_last() =~= lv.subrange(0, j as int));
                assert(lv.subrange(0, j + 1).last() == lv[j as int]);
                assert(lv[j as int] == lines@[j as int]@);
            }
            let w_line: usize = str_width(lines[j].as_str());
            if w_line > line_max {
                line_max = w_line;
            }
            j = j + 1;
        }
        proof {
            assert(lv.subrange(0, m as int) =~= lv);
            assert(line_max as nat == max_line_width(lines_spec(item.summary@)));
        }
        if line_max > address_len {
            address_len = line_max;
        }

        let w_created: usize = str_width(item.created_at.as_str());
        if w_created > email_len {
            email_len = w_created;
        }

        i = i + 1;
    }
    proof {
        assert(dv.subrange(0, n as int) =~= dv);
    }
    ((name_len % 0x10000) as u16, (address_len % 0x10000) as u16, (email_len % 0x10000) as u16)
}

/// Whether a row stays in the rendered view: acknowledged rows are hidden
/// only while the hide toggle is on, and never removed from the list.
pub open spec fn spec_is_visible(v: IncidentView, hide_ack: bool) -> bool {
    v.triggered || !hide_ack
}

pub fn is_visible(incident: &Incident, hide_ack: bool) -> (r: bool)
    ensures
        r == spec_is_visible(incident@, hide_ack),
{
    incident.triggered || !hide_ack
}

impl App {
    /// Builds the state store around an initial, non-empty incident list.
    pub fn new(data_vec: Vec<Incident>, pd: PagerDuty, config: &AppConfig) -> (r: App)
        requires
            data_vec@.len() >= 1,
        ensures
            r@.wf(),
            r@.items == data_vec.deep_view(),
            r@.selected_index == 0,
            r@.pager_duty == pd@,
            r@.longest_item_lens == spec_constraint_lens(data_vec.deep_view()),
            r@.refreshing == false,
            r@.stale == false,
            r@.should_quit == false,
            r@.hide_ack == false,
            r@.show_all_incidents == false,
            r@.refresh_rate == config@.refresh_rate,
            r@.ticker == 0,
    {
        let longest_item_lens = constraint_len_calculator(&data_vec);
        let refresh_rate: Option<i64> = match config.get_refresh_rate() {
            Option::Some(r) => Option::Some(*r),
            Option::None => Option::None,
        };
        App {
            items: data_vec,
            selected_index: 0,
            pager_duty: pd,
            longest_item_lens,
            refreshing: false,
            stale: false,
            should_quit: false,
            hide_ack: false,
            show_all_incidents: false,
            refresh_rate,
            ticker: 0,
        }
    }

    /// Moves the cursor one row down, wrapping to the top.
    pub fn next(&mut self)
        requires
            old(self)@.wf(),
        ensures
            final(self)@ == (AppView {
                selected_index: next_index(old(self)@.selected_index, old(self)@.items.len() as int),
                ..old(self)@
            }),
            final(self)@.wf(),
    {
        let i: usize = if self.selected_index >= self.items.len() - 1 {
            0
        } else {
            self.selected_index + 1
        };
        self.selected_index = i;
    }

    /// Moves the cursor one row up, wrapping to the bottom.
    pub fn previous(&mut self)
        requires
            old(self)@.wf(),
        ensures
            final(self)@ == (AppView {
                selected_index: prev_index(old(self)@.selected_index, old(self)@.items.len() as int),
                ..old(self)@
            }),
            final(self)@.wf(),
    {
        let i: usize = if self.selected_index == 0 {
            self.items.len() - 1
        } else {
            self.selected_index - 1
        };
        self.selected_index = i;
    }

    /// Moves the cursor to the first row.
    pub fn top(&mut self)
        requires
            old(self)@.wf(),
        ensures
            final(self)@ == (AppView { selected_index: 0, ..old(self)@ }),
            final(self)@.wf(),
    {
        self.selected_index = 0;
    }

    /// One frame of the refresh ticker; returns whether the refresh fired,
    /// in which case the caller launches the fetch that [`spec_tick`] marks
    /// outstanding.
    pub fn tick(&mut self) -> (fired: bool)
        requires
            old(self)@.wf(),
        ensures
            final(self)@ == spec_tick(old(self)@),
            fired == spec_tick_fires(old(self)@),
            final(self)@.wf(),
    {
        let rate: i64 = match self.refresh_rate {
            Option::Some(r) => r,
            Option::None => 60,
        };
        let fires: bool = (self.ticker as i128) + 1 >= (rate as i128) * (1000 / REFRESH_RATE
            as i128);
        if fires {
            self.ticker = 0;
            self.refreshing = true;
        } else {
            if self.ticker < i64::MAX {
                self.ticker = self.ticker + 1;
            }
        }
        fires
    }
}

} // verus!
