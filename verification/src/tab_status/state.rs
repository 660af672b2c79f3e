//! The tab status that is shown and the activity behind it.
use vstd::prelude::*;
use super::output::TabStatus;
use crate::text::chars::chars_of;
use crate::text::chars::push_text;
use crate::text::chars::same_text;
use crate::text::chars::string_of;
use crate::text::chars::trim;
use crate::text::chars::trim_chars;
use crate::text::search::contains;
use crate::text::search::contains_text;
use crate::text::search::find_char;
use crate::text::search::first_index;
use crate::text::search::lemma_first_index;
use crate::text::split::copied;
use crate::text::split::join;
use crate::text::split::join_parts;
use crate::text::split::pieces;

verus! {

/// How long a detail is shown at least, in nanoseconds.
pub const MIN_DETAIL_INTERVAL_NS: u64 = 250_000_000;

/// The tab status that was sent last, and the activity. Times are in nanoseconds.
#[derive(Debug, Clone)]
pub struct TabStatusState {
    enabled: bool,
    last_status: Option<(TabStatus, Option<String>)>,
    last_emit_at: Option<u64>,
    current_activity: Option<String>,
    last_activity: Option<String>,
}

/// The state over the characters of its texts.
#[verifier::ext_equal]
pub struct StateModel {
    /// Whether statuses are sent.
    pub enabled: bool,
    /// The status that was sent last.
    pub last_status: Option<(TabStatus, Option<Seq<char>>)>,
    /// When it was sent.
    pub last_emit_at: Option<u64>,
    /// What is being done.
    pub current_activity: Option<Seq<char>>,
    /// What was done before.
    pub last_activity: Option<Seq<char>>,
}

/// A status over the characters of its detail.
pub open spec fn status_model(status: Option<(TabStatus, Option<String>)>) -> Option<
    (TabStatus, Option<Seq<char>>),
> {
    match status {
        Some((class, detail)) => Some((class, detail.deep_view())),
        None => None,
    }
}

impl View for TabStatusState {
    type V = StateModel;

    closed spec fn view(&self) -> StateModel {
        StateModel {
            enabled: self.enabled,
            last_status: status_model(self.last_status),
            last_emit_at: self.last_emit_at,
            current_activity: self.current_activity.deep_view(),
            last_activity: self.last_activity.deep_view(),
        }
    }
}

/// An activity without white space around it; an empty one is none.
pub open spec fn tidied(activity: Option<Seq<char>>) -> Option<Seq<char>> {
    match activity {
        Some(text) if trim(text).len() > 0 => Some(trim(text)),
        _ => None,
    }
}

impl StateModel {
    /// The state before anything was sent.
    pub open spec fn initial() -> StateModel {
        StateModel {
            enabled: true,
            last_status: None,
            last_emit_at: None,
            current_activity: None,
            last_activity: None,
        }
    }

    /// The state with another activity. An activity that ends is remembered.
    pub open spec fn with_activity(self, activity: Option<Seq<char>>) -> StateModel {
        let next = tidied(activity);
        StateModel {
            current_activity: next,
            last_activity: if next is None && self.current_activity is Some {
                self.current_activity
            } else {
                self.last_activity
            },
            ..self
        }
    }

    /// How long a new detail of the same status has to wait.
    pub open spec fn delay(self, desired_class: TabStatus, now: u64) -> Option<u64> {
        match (self.last_status, self.last_emit_at) {
            (Some((class, _)), Some(at)) => {
                let elapsed = if now > at {
                    now - at
                } else {
                    0
                };
                if self.enabled && class == desired_class && elapsed < MIN_DETAIL_INTERVAL_NS {
                    Some((MIN_DETAIL_INTERVAL_NS - elapsed) as u64)
                } else {
                    None
                }
            },
            _ => None,
        }
    }

    /// Whether a status is to be sent.
    pub open spec fn sends(self, desired: (TabStatus, Option<Seq<char>>)) -> bool {
        self.enabled && self.last_status != Some(desired)
    }
}

fn same_optional_text(a: &Option<String>, b: &Option<String>) -> (r: bool)
    ensures
        r == (a.deep_view() == b.deep_view()),
{
    match (a, b) {
        (Some(a), Some(b)) => same_text(a.as_str(), b.as_str()),
        (None, None) => true,
        _ => false,
    }
}

fn tidy(activity: Option<String>) -> (r: Option<String>)
    ensures
        r.deep_view() == tidied(activity.deep_view()),
{
    match activity {
        None => None,
        Some(activity) => {
            let chars = chars_of(activity.as_str());
            let trimmed = trim_chars(&chars);
            if trimmed.len() == 0 {
                None
            } else {
                Some(string_of(trimmed))
            }
        },
    }
}

impl TabStatusState {
    /// The state before anything was sent.
    pub fn new() -> (r: Self)
        ensures
            r@ == StateModel::initial(),
    {
        TabStatusState {
            enabled: true,
            last_status: None,
            last_emit_at: None,
            current_activity: None,
            last_activity: None,
        }
    }

    /// Switches the sending of statuses on or off.
    pub fn set_enabled(&mut self, enabled: bool)
        ensures
            final(self)@ == (StateModel { enabled, ..old(self)@ }),
    {
        self.enabled = enabled;
    }

    /// Forgets the activities.
    pub fn reset_for_new_turn(&mut self)
        ensures
            final(self)@ == (StateModel {
                current_activity: None,
                last_activity: None,
                ..old(self)@
            }),
    {
        self.current_activity = None;
        self.last_activity = None;
    }

    /// Takes up what is being done, and tells whether that changed.
    pub fn set_current_activity(&mut self, activity: Option<String>) -> (r: bool)
        ensures
            final(self)@ == old(self)@.with_activity(activity.deep_view()),
            r == (old(self)@.current_activity != tidied(activity.deep_view())),
    {
        let activity = tidy(activity);
        if same_optional_text(&self.current_activity, &activity) {
            return false;
        }
        if activity.is_none() {
            if let Some(previous) = self.current_activity.take() {
                self.last_activity = Some(previous);
            }
        }
        self.current_activity = activity;
        true
    }

    /// What is being done.
    pub fn current_activity(&self) -> (r: Option<&String>)
        ensures
            match r {
                Some(s) => self@.current_activity == Some(s@),
                None => self@.current_activity is None,
            },
    {
        self.current_activity.as_ref()
    }

    /// What was done before.
    pub fn last_activity(&self) -> (r: Option<&String>)
        ensures
            match r {
                Some(s) => self@.last_activity == Some(s@),
                None => self@.last_activity is None,
            },
    {
        self.last_activity.as_ref()
    }

    /// The status that was sent last.
    pub fn last_status(&self) -> (r: Option<&(TabStatus, Option<String>)>)
        ensures
            match r {
                Some(s) => self@.last_status == Some((s.0, s.1.deep_view())),
                None => self@.last_status is None,
            },
    {
        self.last_status.as_ref()
    }

    /// How long a new detail has to wait. Another status need not wait.
    pub fn refresh_delay(&self, desired_class: TabStatus, now: u64) -> (r: Option<u64>)
        ensures
            r == self@.delay(desired_class, now),
    {
        if !self.enabled {
            return None;
        }
        match (&self.last_status, self.last_emit_at) {
            (Some((class, _)), Some(at)) => {
                if *class != desired_class {
                    return None;
                }
                let elapsed: u64 = if now > at {
                    now - at
                } else {
                    0
                };
                if elapsed < MIN_DETAIL_INTERVAL_NS {
                    Some(MIN_DETAIL_INTERVAL_NS - elapsed)
                } else {
                    None
                }
            },
            _ => None,
        }
    }

    /// Whether a status is to be sent: not where it is the one that was sent last.
    pub fn refresh(&self, desired: &(TabStatus, Option<String>)) -> (r: bool)
        ensures
            r == self@.sends((desired.0, desired.1.deep_view())),
    {
        if !self.enabled {
            return false;
        }
        match &self.last_status {
            Some((class, detail)) => !(*class == desired.0 && same_optional_text(
                detail,
                &desired.1,
            )),
            None => true,
        }
    }

    /// Takes up whether a status was sent. Where that failed, it will be tried again.
    pub fn refreshed(&mut self, desired: (TabStatus, Option<String>), now: u64, succeeded: bool)
        ensures
            final(self)@ == (if succeeded {
                StateModel {
                    last_status: Some((desired.0, desired.1.deep_view())),
                    last_emit_at: Some(now),
                    ..old(self)@
                }
            } else {
                old(self)@
            }),
    {
        if !succeeded {
            return;
        }
        self.last_status = Some(desired);
        self.last_emit_at = Some(now);
    }
}

/// What the status line shows.
#[derive(Debug, Clone, PartialEq, Eq)]
pub struct StatusLine {
    /// The header.
    pub header: String,
    /// The details, of several lines.
    pub details: Option<String>,
}

/// The first line of a text.
pub open spec fn first_line(s: Seq<char>) -> Seq<char> {
    s.take(first_index(s, '\n'))
}

/// Whether a part says what the candidate says, or the other way round.
pub open spec fn overlaps(part: Seq<char>, candidate: Seq<char>) -> bool {
    contains(part, candidate) || contains(candidate, part)
}

/// Whether one of the parts overlaps with the candidate.
pub open spec fn any_overlaps(parts: Seq<Seq<char>>, candidate: Seq<char>) -> bool {
    exists|i: int| 0 <= i < parts.len() && overlaps(#[trigger] parts[i], candidate)
}

/// The parts with a candidate that says something new.
pub open spec fn with_new(parts: Seq<Seq<char>>, candidate: Seq<char>) -> Seq<Seq<char>> {
    let text = trim(candidate);
    if text.len() == 0 || any_overlaps(parts, text) {
        parts
    } else {
        parts.push(text)
    }
}

/// What there is to say while something is being done: the activity, the header of
/// the status line unless it is the usual one, and the first line of its details.
pub open spec fn working_parts(state: StateModel, status: Option<StatusLine>) -> Seq<Seq<char>> {
    let parts = match state.current_activity {
        Some(activity) => seq![activity],
        None => Seq::empty(),
    };
    match status {
        None => parts,
        Some(line) => {
            let parts = if line.header@ != "Working"@ {
                with_new(parts, line.header@)
            } else {
                parts
            };
            match line.details {
                Some(details) => with_new(parts, first_line(details@)),
                None => parts,
            }
        },
    }
}

/// The detail while something is being done.
pub open spec fn working_detail(state: StateModel, status: Option<StatusLine>) -> Option<Seq<char>> {
    let parts = working_parts(state, status);
    if parts.len() > 0 {
        Some(join(parts, " • "@))
    } else {
        match state.last_activity {
            Some(activity) => Some("after: "@ + activity),
            None => None,
        }
    }
}

/// The detail of a status.
pub open spec fn desired_detail(
    class: TabStatus,
    state: StateModel,
    view_detail: Option<Seq<char>>,
    status: Option<StatusLine>,
) -> Option<Seq<char>> {
    match class {
        TabStatus::Waiting => view_detail,
        TabStatus::Working => working_detail(state, status),
        TabStatus::Idle => match state.last_activity {
            Some(activity) => Some("last: "@ + activity),
            None => None,
        },
    }
}

fn push_if_new(parts: &mut Vec<Vec<char>>, candidate: &[char])
    ensures
        pieces(final(parts)@) == with_new(pieces(old(parts)@), candidate@),
{
    let text = trim_chars(candidate);
    if text.len() == 0 {
        return;
    }
    let mut i: usize = 0;
    let ghost before = pieces(parts@);
    while i < parts.len()
        invariant
            i <= parts@.len(),
            text@ == trim(candidate@),
            text@.len() > 0,
            pieces(old(parts)@) == before,
            pieces(parts@) == before,
            forall|j: int| 0 <= j < i ==> !overlaps(#[trigger] before[j], text@),
        decreases parts@.len() - i,
    {
        assert(before[i as int] == parts@[i as int]@);
        if contains_text(&parts[i], text) || contains_text(text, &parts[i]) {
            assert(overlaps(before[i as int], text@));
            return;
        }
        i += 1;
    }
    parts.push(copied(text));
    assert(pieces(parts@) =~= before.push(text@));
}

impl TabStatusState {
    /// The detail while something is being done.
    pub fn working_tab_status_detail(&self, status: Option<&StatusLine>) -> (r: Option<String>)
        ensures
            r.deep_view() == working_detail(
                self@,
                match status {
                    Some(line) => Some(*line),
                    None => None,
                },
            ),
    {
        let mut parts: Vec<Vec<char>> = Vec::new();
        if let Some(activity) = &self.current_activity {
            parts.push(chars_of(activity.as_str()));
        }
        assert(pieces(parts@) =~= match self@.current_activity {
            Some(activity) => seq![activity],
            None => Seq::empty(),
        });
        if let Some(line) = status {
            if !same_text(line.header.as_str(), "Working") {
                let header = chars_of(line.header.as_str());
                push_if_new(&mut parts, &header);
            }
            if let Some(details) = &line.details {
                let chars = chars_of(details.as_str());
                let end = find_char(&chars, '\n');
                let head = &chars[0..end];
                assert(head@ =~= first_line(details@));
                push_if_new(&mut parts, head);
            }
        }
        if parts.len() > 0 {
            return Some(string_of(&join_parts(&parts, " • ")));
        }
        match &self.last_activity {
            Some(activity) => {
                let mut text = chars_of("after: ");
                push_text(&mut text, activity.as_str());
                Some(string_of(&text))
            },
            None => None,
        }
    }

    /// The status that should be shown, given its class and what the view and the
    /// status line say.
    pub fn desired_tab_status(
        &self,
        class: TabStatus,
        view_detail: Option<String>,
        status: Option<&StatusLine>,
    ) -> (r: (TabStatus, Option<String>))
        ensures
            r.0 == class,
            r.1.deep_view() == desired_detail(
                class,
                self@,
                view_detail.deep_view(),
                match status {
                    Some(line) => Some(*line),
                    None => None,
                },
            ),
    {
        let detail = match class {
            TabStatus::Waiting => view_detail,
            TabStatus::Working => self.working_tab_status_detail(status),
            TabStatus::Idle => match &self.last_activity {
                Some(activity) => {
                    let mut text = chars_of("last: ");
                    push_text(&mut text, activity.as_str());
                    Some(string_of(&text))
                },
                None => None,
            },
        };
        (class, detail)
    }
}

/// Another status never waits; and once a status was sent, a new detail of it
/// waits for the rest of the interval and no longer.
pub proof fn law_only_details_are_throttled(m: StateModel, desired: TabStatus, now: u64)
    requires
        m.last_status is Some,
        m.last_emit_at is Some,
        m.last_emit_at->0 <= now,
    ensures
        (m.last_status->0).0 != desired ==> m.delay(desired, now) is None,
        now - m.last_emit_at->0 >= MIN_DETAIL_INTERVAL_NS ==> m.delay(desired, now) is None,
        m.delay(desired, now) matches Some(wait) ==> now + wait == m.last_emit_at->0
            + MIN_DETAIL_INTERVAL_NS,
{
}

/// A status that was sent is not sent again until another one was.
pub proof fn law_status_is_sent_once(
    m: StateModel,
    desired: (TabStatus, Option<Seq<char>>),
    now: u64,
)
    ensures
        !(StateModel { last_status: Some(desired), last_emit_at: Some(now), ..m }).sends(desired),
{
}

/// An activity that ends is the last one until another ends.
pub proof fn law_ended_activity_is_remembered(
    m: StateModel,
    activity: Seq<char>,
    next: Option<Seq<char>>,
)
    requires
        trim(activity).len() > 0,
    ensures
        m.with_activity(Some(activity)).with_activity(None).last_activity == Some(trim(activity)),
        m.with_activity(Some(activity)).with_activity(None).current_activity is None,
        tidied(next) is Some ==> m.with_activity(Some(activity)).with_activity(next).last_activity
            == m.last_activity,
{
}

/// A new detail of the status that was sent last waits for the rest of a quarter of
/// a second; where nothing was sent, or nothing is to be sent, nothing waits.
pub proof fn law_details_wait_for_a_quarter_of_a_second(
    m: StateModel,
    desired: TabStatus,
    now: u64,
)
    ensures
        !m.enabled || m.last_status is None || m.last_emit_at is None ==> m.delay(
            desired,
            now,
        ) is None,
        m.enabled && m.last_status is Some && (m.last_status->0).0 == desired && m.last_emit_at
            is Some && m.last_emit_at->0 <= now && now - m.last_emit_at->0 < 250_000_000
            ==> m.delay(desired, now) == Some(
            (250_000_000 - (now - m.last_emit_at->0)) as u64,
        ),
        m.enabled && m.last_status is Some && (m.last_status->0).0 == desired && m.last_emit_at
            is Some && now < m.last_emit_at->0 ==> m.delay(desired, now) == Some(250_000_000u64),
{
}

/// A status is sent exactly where sending is on and it is not the one that was sent
/// last, with the same detail.
pub proof fn law_new_statuses_are_sent(m: StateModel, class: TabStatus, detail: Option<Seq<char>>)
    ensures
        !m.enabled ==> !m.sends((class, detail)),
        m.enabled && m.last_status is None ==> m.sends((class, detail)),
        m.enabled && m.last_status is Some && ((m.last_status->0).0 != class || (
        m.last_status->0).1 != detail) ==> m.sends((class, detail)),
{
}

/// Taking up an activity changes nothing but the activities; white space around one
/// does not matter, and a blank one is none.
pub proof fn law_activity_changes_nothing_else(m: StateModel, activity: Option<Seq<char>>)
    ensures
        m.with_activity(activity).enabled == m.enabled,
        m.with_activity(activity).last_status == m.last_status,
        m.with_activity(activity).last_emit_at == m.last_emit_at,
        activity matches Some(text) && trim(text).len() > 0 ==> m.with_activity(
            activity,
        ).current_activity == Some(trim(activity->0)),
        activity is None || trim(activity->0).len() == 0 ==> m.with_activity(
            activity,
        ).current_activity is None,
        m.current_activity is None ==> m.with_activity(activity).last_activity == m.last_activity,
{
}

/// The detail of a status is what the view says while an answer is awaited, and the
/// last activity while nothing is being done, whatever else there is to say.
pub proof fn law_detail_goes_by_the_status(
    m: StateModel,
    view_detail: Option<Seq<char>>,
    status: Option<StatusLine>,
)
    ensures
        desired_detail(TabStatus::Waiting, m, view_detail, status) == view_detail,
        m.last_activity matches Some(activity) ==> desired_detail(
            TabStatus::Idle,
            m,
            view_detail,
            status,
        ) == Some("last: "@ + activity),
        m.last_activity is None ==> desired_detail(
            TabStatus::Idle,
            m,
            view_detail,
            status,
        ) is None,
        desired_detail(TabStatus::Working, m, view_detail, status) == working_detail(m, status),
{
}

/// While something is being done, the activity comes first, then the header of the
/// status line and the first line of its details, with bullets between them. What
/// an earlier part says already is not said again, and neither is the usual header.
/// Where there is nothing to say, the last activity is named.
pub proof fn law_working_detail_says_nothing_twice(
    m: StateModel,
    activity: Seq<char>,
    header: Seq<char>,
    line: StatusLine,
)
    requires
        m.current_activity == Some(activity),
        line.header@ == header,
        line.details is None,
    ensures
        working_detail(m, None) == Some(activity),
        header == "Working"@ || trim(header).len() == 0 || contains(activity, trim(header))
            || contains(trim(header), activity) ==> working_detail(m, Some(line)) == Some(activity),
        header != "Working"@ && trim(header).len() > 0 && !contains(activity, trim(header))
            && !contains(trim(header), activity) ==> working_detail(m, Some(line)) == Some(
            activity + " • "@ + trim(header),
        ),
{
    let one = seq![activity];
    let text = trim(header);
    assert(join(one, " • "@) == activity);
    if contains(activity, text) || contains(text, activity) {
        assert(overlaps(one[0], text));
        assert(any_overlaps(one, text));
    } else {
        assert(!any_overlaps(one, text));
        let two = one.push(text);
        assert(two.drop_last() =~= one);
        assert(two.last() == text);
        assert(join(two, " • "@) == activity + " • "@ + text);
    }
}

/// Of the details of the status line only the first line counts, and it is said
/// where no earlier part says it already.
pub proof fn law_first_line_of_the_details_is_said(
    parts: Seq<Seq<char>>,
    first: Seq<char>,
    rest: Seq<char>,
)
    requires
        !first.contains('\n'),
    ensures
        first_line(first) == first,
        first_line(first + seq!['\n'] + rest) == first,
        trim(first).len() > 0 && (forall|i: int|
            0 <= i < parts.len() ==> !contains(#[trigger] parts[i], trim(first)) && !contains(
                trim(first),
                parts[i],
            )) ==> with_new(parts, first) == parts.push(trim(first)),
        trim(first).len() == 0 ==> with_new(parts, first) == parts,
        (exists|i: int|
            0 <= i < parts.len() && (contains(#[trigger] parts[i], trim(first)) || contains(
                trim(first),
                parts[i],
            ))) ==> with_new(parts, first) == parts,
{
    let all = first + seq!['\n'] + rest;
    lemma_first_index(first, '\n');
    lemma_first_index(all, '\n');
    assert(first.take(first.len() as int) =~= first);
    assert(all[first.len() as int] == '\n');
    assert forall|i: int| 0 <= i < first.len() implies all[i] != '\n' by {
        assert(all[i] == first[i]);
    }
    assert(all.contains('\n'));
    assert(all.take(first.len() as int) =~= first);
    if exists|i: int|
        0 <= i < parts.len() && (contains(#[trigger] parts[i], trim(first)) || contains(
            trim(first),
            parts[i],
        )) {
        let i = choose|i: int|
            0 <= i < parts.len() && (contains(#[trigger] parts[i], trim(first)) || contains(
                trim(first),
                parts[i],
            ));
        assert(overlaps(parts[i], trim(first)));
    }
}

/// Without an activity and without a status line, the detail names what was done
/// before.
pub proof fn law_idle_moments_name_the_last_activity(m: StateModel)
    requires
        m.current_activity is None,
    ensures
        m.last_activity matches Some(activity) ==> working_detail(m, None) == Some(
            "after: "@ + activity,
        ),
        m.last_activity is None ==> working_detail(m, None) is None,
{
}

/// The first line of the details stands behind everything that is said without
/// them; where nothing else is to be said it stands alone, and so does a header
/// that is not the usual one.
pub proof fn law_details_stand_behind_the_rest(m: StateModel, line: StatusLine, bare: StatusLine)
    requires
        line.details is Some,
        bare.details is None,
        bare.header@ == line.header@,
    ensures
        working_parts(m, Some(line)) == with_new(
            working_parts(m, Some(bare)),
            first_line((line.details->0)@),
        ),
        m.current_activity is None && line.header@ == "Working"@ && trim(
            first_line((line.details->0)@),
        ).len() > 0 ==> working_detail(m, Some(line)) == Some(trim(first_line((line.details->0)@))),
        m.current_activity is None && line.header@ != "Working"@ && trim(line.header@).len() > 0
            ==> working_detail(m, Some(bare)) == Some(trim(line.header@)),
{
    let none = Seq::<Seq<char>>::empty();
    let text = trim(first_line((line.details->0)@));
    let header = trim(line.header@);
    assert(!any_overlaps(none, text));
    assert(!any_overlaps(none, header));
    assert(none.push(text) =~= seq![text]);
    assert(none.push(header) =~= seq![header]);
    assert(join(seq![text], " • "@) == text);
    assert(join(seq![header], " • "@) == header);
}

/// A status is seen with its class and with the characters of its detail.
pub proof fn law_status_is_seen_whole(class: TabStatus, text: String)
    ensures
        status_model(None) is None,
        status_model(Some((class, None))) == Some((class, None::<Seq<char>>)),
        status_model(Some((class, Some(text)))) == Some((class, Some(text@))),
{
}

} // verus!
