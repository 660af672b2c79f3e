//! Sandbox denials that the system logs for a process tree.
use std::collections::VecDeque;
use vstd::prelude::*;
use vstd::utf8::encode_utf8;
use crate::outside::records::json_text_member;
use crate::outside::records::match_groups;
use crate::outside::records::pattern_groups;
use crate::outside::records::read_json_text_member;
use crate::outside::records::DENIAL_PATTERN;
use crate::text::chars::chars_of;
use crate::text::chars::push_text;
use crate::text::chars::same_text;
use crate::text::chars::string_of;
use crate::text::chars::trim;
use crate::text::chars::trim_chars;
use crate::text::number::decimal;
use crate::text::number::law_decimal_is_read_back;
use crate::text::number::lemma_decimal_digits;
use crate::text::number::parse_unsigned;
use crate::text::number::unsigned_value;
use crate::text::search::begins_with_text;
use crate::text::search::starts_with;

verus! {

/// How long the log stream may take to get ready, in milliseconds.
pub const LOG_STREAM_READY_TIMEOUT_MS: u64 = 2_000;

/// How long to wait for the log stream to catch up, in milliseconds.
pub const LOG_STREAM_FLUSH_GRACE_PERIOD_MS: u64 = 100;

/// The beginning of the line by which the log stream tells that it is ready.
pub const LOG_STREAM_READY_PREFIX: &'static str = "Filtering the log data using ";

/// How many characters a bounded collection keeps.
pub const MAX_COLLECTED_LOG_CHARS: usize = 1_000;

/// A denial.
#[derive(Debug, Clone, PartialEq, Eq)]
pub struct SandboxDenial {
    /// The process.
    pub name: String,
    /// What was denied.
    pub capability: String,
}

/// A denial with the process number that it was logged for.
#[derive(Debug, Clone, PartialEq, Eq)]
pub struct LoggedDenial {
    /// The number of the process.
    pub pid: i32,
    /// The denial.
    pub denial: SandboxDenial,
    /// How many characters the denial has.
    pub chars: usize,
}

/// The texts of a denial.
pub open spec fn denial_texts(d: SandboxDenial) -> (Seq<char>, Seq<char>) {
    (d.name@, d.capability@)
}

/// The lines of denials.
pub open spec fn denial_lines(denials: Seq<SandboxDenial>) -> Seq<char>
    decreases denials.len(),
{
    if denials.len() == 0 {
        Seq::empty()
    } else {
        denial_lines(denials.drop_last()) + "("@ + denials.last().name@ + ") "@
            + denials.last().capability@ + "\n"@
    }
}

/// What is appended to the output of a command with denials.
pub open spec fn denial_report(denials: Seq<SandboxDenial>) -> Seq<char> {
    "\n=== Sandbox denials ===\n"@ + denial_lines(denials)
}

/// Formats denials for appending to the output of a command.
pub fn format_sandbox_denials(denials: &[SandboxDenial]) -> (r: Option<Vec<u8>>)
    ensures
        r is Some == (denials@.len() > 0),
        r matches Some(bytes) ==> bytes@ == encode_utf8(denial_report(denials@)),
{
    if denials.len() == 0 {
        return None;
    }
    let mut out = chars_of("\n=== Sandbox denials ===\n");
    let ghost head = out@;
    let mut i: usize = 0;
    assert(head + denial_lines(denials@.take(0)) =~= head);
    while i < denials.len()
        invariant
            i <= denials@.len(),
            out@ == head + denial_lines(denials@.take(i as int)),
        decreases denials@.len() - i,
    {
        push_text(&mut out, "(");
        push_text(&mut out, denials[i].name.as_str());
        push_text(&mut out, ") ");
        push_text(&mut out, denials[i].capability.as_str());
        push_text(&mut out, "\n");
        proof {
            let upto = denials@.take(i + 1);
            assert(upto.drop_last() =~= denials@.take(i as int));
            assert(upto.last() == denials@[i as int]);
            assert(out@ =~= head + denial_lines(upto));
        }
        i += 1;
    }
    assert(denials@.take(i as int) =~= denials@);
    let text = string_of(&out);
    let mut bytes: Vec<u8> = Vec::new();
    bytes.extend_from_slice(text.as_str().as_bytes());
    assert(bytes@ =~= encode_utf8(text@));
    Some(bytes)
}

/// The characters of all denials.
pub open spec fn total_chars(s: Seq<LoggedDenial>) -> nat
    decreases s.len(),
{
    if s.len() == 0 {
        0
    } else {
        s[0].chars as nat + total_chars(s.skip(1))
    }
}

/// The denials without the oldest ones, as many as are in the way of `chars`
/// more characters.
pub open spec fn make_room(s: Seq<LoggedDenial>, chars: nat, max: nat) -> Seq<LoggedDenial>
    decreases s.len(),
{
    if s.len() > 0 && total_chars(s) + chars > max {
        make_room(s.skip(1), chars, max)
    } else {
        s
    }
}

/// The denials after another one was logged. Within a limit the oldest ones give
/// way to it, and one that is too long by itself is not kept.
pub open spec fn after_logging(s: Seq<LoggedDenial>, d: LoggedDenial, max: Option<nat>) -> Seq<
    LoggedDenial,
> {
    match max {
        None => s.push(d),
        Some(max) => if d.chars > max {
            s
        } else {
            make_room(s, d.chars as nat, max).push(d)
        },
    }
}

proof fn lemma_total_push(s: Seq<LoggedDenial>, d: LoggedDenial)
    ensures
        total_chars(s.push(d)) == total_chars(s) + d.chars,
    decreases s.len(),
{
    if s.len() > 0 {
        assert(s.push(d).skip(1) =~= s.skip(1).push(d));
        lemma_total_push(s.skip(1), d);
    } else {
        assert(s.push(d).skip(1) =~= Seq::<LoggedDenial>::empty());
        assert(total_chars(s.push(d).skip(1)) == 0);
    }
}

/// Keeps a denial, within a limit on the characters that are kept. The count of
/// characters is kept along only where there is a limit.
pub fn push_logged_denial(
    logged_denials: &mut VecDeque<LoggedDenial>,
    collected_chars: &mut usize,
    logged_denial: LoggedDenial,
    max_chars: Option<usize>,
)
    requires
        max_chars matches Some(max) ==> *old(collected_chars) == total_chars(old(logged_denials)@)
            && *old(collected_chars) <= max && max <= usize::MAX / 2,
    ensures
        final(logged_denials)@ == after_logging(
            old(logged_denials)@,
            logged_denial,
            match max_chars {
                Some(max) => Some(max as nat),
                None => None,
            },
        ),
        match max_chars {
            Some(max) => *final(collected_chars) == total_chars(final(logged_denials)@)
                && *final(collected_chars) <= max,
            None => *final(collected_chars) == *old(collected_chars),
        },
{
    let denial_chars = logged_denial.chars;
    if let Some(max) = max_chars {
        if denial_chars > max {
            return;
        }
        let ghost all = logged_denials@;
        while *collected_chars + denial_chars > max
            invariant
                max <= usize::MAX / 2,
                denial_chars <= max,
                *collected_chars == total_chars(logged_denials@),
                *collected_chars <= max,
                make_room(all, denial_chars as nat, max as nat) == make_room(
                    logged_denials@,
                    denial_chars as nat,
                    max as nat,
                ),
            decreases logged_denials@.len(),
        {
            let ghost here = logged_denials@;
            match logged_denials.pop_front() {
                Some(removed) => {
                    assert(logged_denials@ =~= here.skip(1));
                    *collected_chars = *collected_chars - removed.chars;
                },
                None => {
                    return;
                },
            }
        }
        *collected_chars = *collected_chars + denial_chars;
        proof {
            lemma_total_push(logged_denials@, logged_denial);
        }
    }
    logged_denials.push_back(logged_denial);
}

/// What a log message says: the process number, the process and what was denied.
pub open spec fn message_denial(groups: Option<(Seq<char>, Seq<char>, Seq<char>)>) -> Option<
    (int, Seq<char>, Seq<char>),
> {
    match groups {
        Some((name, pid, capability)) => match unsigned_value(trim(pid), 10, i32::MAX as int) {
            Some(pid) => Some((pid, name, capability)),
            None => None,
        },
        None => None,
    }
}

/// Reads a log message such as
/// `Sandbox: processname(1234) deny(1) capability-name args`.
pub fn parse_message(msg: &str) -> (r: Option<(i32, String, String)>)
    ensures
        match r {
            Some((pid, name, capability)) => message_denial(
                pattern_groups(DENIAL_PATTERN@, msg@),
            ) == Some((pid as int, name@, capability@)) && name@.len() + capability@.len()
                <= msg@.len(),
            None => message_denial(pattern_groups(DENIAL_PATTERN@, msg@)) is None,
        },
{
    match match_groups(DENIAL_PATTERN, msg) {
        Some((name, pid, capability)) => denial_of_groups(name, pid, capability),
        None => None,
    }
}

/// Reads the parts of a log message, of which the second is a number.
pub fn denial_of_groups(name: String, pid: String, capability: String) -> (r: Option<
    (i32, String, String),
>)
    ensures
        match r {
            Some((p, n, c)) => message_denial(Some((name@, pid@, capability@))) == Some(
                (p as int, n@, c@),
            ),
            None => message_denial(Some((name@, pid@, capability@))) is None,
        },
{
    let digits = chars_of(pid.as_str());
    match parse_unsigned(trim_chars(&digits), 10, i32::MAX as u32) {
        Some(pid) => Some((pid as i32, name, capability)),
        None => None,
    }
}

/// The denial that a line of the log stream records.
pub open spec fn line_denial(line: Seq<u8>) -> Option<(int, Seq<char>, Seq<char>)> {
    match json_text_member(line, "eventMessage"@) {
        Some(msg) => message_denial(pattern_groups(DENIAL_PATTERN@, msg)),
        None => None,
    }
}

/// Reads a line of the log stream.
pub fn parse_log_line(line: &[u8]) -> (r: Option<LoggedDenial>)
    ensures
        match r {
            Some(d) => line_denial(line@) == Some(
                (d.pid as int, d.denial.name@, d.denial.capability@),
            ) && d.chars == d.denial.name@.len() + d.denial.capability@.len(),
            None => line_denial(line@) is None,
        },
{
    let msg = match read_json_text_member(line, "eventMessage") {
        Some(msg) => msg,
        None => {
            return None;
        },
    };
    let bound: usize = chars_of(msg.as_str()).len();
    match parse_message(msg.as_str()) {
        Some((pid, name, capability)) => {
            assert(name@.len() + capability@.len() <= bound);
            let chars: usize = chars_of(name.as_str()).len() + chars_of(capability.as_str()).len();
            Some(LoggedDenial { pid, denial: SandboxDenial { name, capability }, chars })
        },
        None => None,
    }
}

/// Whether bytes begin with the given ones.
pub open spec fn bytes_start_with(s: Seq<u8>, p: Seq<u8>) -> bool {
    p.len() <= s.len() && s.take(p.len() as int) == p
}

fn bytes_begin_with(s: &[u8], p: &[u8]) -> (r: bool)
    ensures
        r == bytes_start_with(s@, p@),
{
    if p.len() > s.len() {
        return false;
    }
    let mut i: usize = 0;
    while i < p.len()
        invariant
            i <= p@.len() <= s@.len(),
            forall|j: int| 0 <= j < i ==> s@[j] == p@[j],
        decreases p@.len() - i,
    {
        if s[i] != p[i] {
            assert(s@.take(p@.len() as int)[i as int] != p@[i as int]);
            return false;
        }
        i += 1;
    }
    assert(s@.take(p@.len() as int) =~= p@);
    true
}

/// Whether a line of the log stream tells that it is ready.
pub open spec fn is_ready_line(line: Seq<u8>) -> bool {
    bytes_start_with(line, encode_utf8(LOG_STREAM_READY_PREFIX@))
}

/// The denials that a log stream has brought.
pub struct DenialCollector {
    logged_denials: VecDeque<LoggedDenial>,
    collected_chars: usize,
    max_chars: Option<usize>,
}

impl View for DenialCollector {
    type V = Seq<LoggedDenial>;

    closed spec fn view(&self) -> Seq<LoggedDenial> {
        self.logged_denials@
    }
}

impl DenialCollector {
    /// The limit on the characters that are kept.
    pub closed spec fn limit(self) -> Option<nat> {
        match self.max_chars {
            Some(max) => Some(max as nat),
            None => None,
        }
    }

    /// The count of characters is exact and within the limit.
    pub closed spec fn wf(self) -> bool {
        self.max_chars matches Some(max) ==> self.collected_chars == total_chars(
            self.logged_denials@,
        ) && self.collected_chars <= max && max <= usize::MAX / 2
    }

    /// No more characters are kept than the limit allows.
    pub proof fn law_collection_stays_within_its_limit(self)
        requires
            self.wf(),
        ensures
            self.limit() matches Some(max) ==> total_chars(self@) <= max,
    {
    }

    /// A collection without a limit.
    pub fn new() -> (r: Self)
        ensures
            r.wf(),
            r@ == Seq::<LoggedDenial>::empty(),
            r.limit() is None,
    {
        DenialCollector { logged_denials: VecDeque::new(), collected_chars: 0, max_chars: None }
    }

    /// A collection of at most a thousand characters.
    pub fn new_bounded() -> (r: Self)
        ensures
            r.wf(),
            r@ == Seq::<LoggedDenial>::empty(),
            r.limit() == Some(MAX_COLLECTED_LOG_CHARS as nat),
    {
        DenialCollector {
            logged_denials: VecDeque::new(),
            collected_chars: 0,
            max_chars: Some(MAX_COLLECTED_LOG_CHARS),
        }
    }

    /// Takes up a line of the standard output of the log stream; true where it
    /// tells that the stream is ready.
    pub fn stdout_line(&mut self, line: &[u8]) -> (r: bool)
        requires
            old(self).wf(),
        ensures
            final(self).wf(),
            final(self).limit() == old(self).limit(),
            r == is_ready_line(line@),
            match line_denial(line@) {
                Some((pid, name, capability)) if !r => exists|d: LoggedDenial|
                    d.pid == pid && d.denial.name@ == name && d.denial.capability@ == capability
                        && d.chars == name.len() + capability.len() && final(self)@
                        == #[trigger] after_logging(old(self)@, d, old(self).limit()),
                _ => final(self)@ == old(self)@,
            },
    {
        if bytes_begin_with(line, LOG_STREAM_READY_PREFIX.as_bytes()) {
            return true;
        }
        if let Some(denial) = parse_log_line(line) {
            push_logged_denial(
                &mut self.logged_denials,
                &mut self.collected_chars,
                denial,
                self.max_chars,
            );
            assert(self@ == after_logging(old(self)@, denial, old(self).limit()));
        }
        false
    }

    /// Takes up a line of the standard error of the log stream; true where it
    /// tells that the stream is ready.
    pub fn stderr_line(line: &str) -> (r: bool)
        ensures
            r == starts_with(line@, LOG_STREAM_READY_PREFIX@),
    {
        begins_with_text(&chars_of(line), LOG_STREAM_READY_PREFIX)
    }

    /// The denials of the given processes, each once.
    pub fn finish(self, pids: &[i32]) -> (r: Vec<SandboxDenial>)
        ensures
            r@.map_values(|d: SandboxDenial| denial_texts(d)) == unique_denials(self@, pids@),
    {
        let mut r: Vec<SandboxDenial> = Vec::new();
        let mut logged = self.logged_denials;
        let ghost all = logged@;
        assert(r@.map_values(|d: SandboxDenial| denial_texts(d)) =~= Seq::empty());
        while logged.len() > 0
            invariant
                unique_from(
                    r@.map_values(|d: SandboxDenial| denial_texts(d)),
                    logged@,
                    pids@,
                ) == unique_denials(all, pids@),
            decreases logged@.len(),
        {
            let ghost here = logged@;
            let ghost before = r@;
            if let Some(next) = logged.pop_front() {
                assert(logged@ =~= here.skip(1));
                if has_pid(pids, next.pid) && !has_denial(&r, &next.denial) {
                    r.push(next.denial);
                    assert(r@.map_values(|d: SandboxDenial| denial_texts(d)) =~= before.map_values(
                        |d: SandboxDenial| denial_texts(d),
                    ).push(denial_texts(next.denial)));
                }
            }
        }
        r
    }
}

/// The denials of the given processes that are not among `seen`, each once.
pub open spec fn unique_from(
    seen: Seq<(Seq<char>, Seq<char>)>,
    logged: Seq<LoggedDenial>,
    pids: Seq<i32>,
) -> Seq<(Seq<char>, Seq<char>)>
    decreases logged.len(),
{
    if logged.len() == 0 {
        seen
    } else {
        let d = denial_texts(logged[0].denial);
        if pids.contains(logged[0].pid) && !seen.contains(d) {
            unique_from(seen.push(d), logged.skip(1), pids)
        } else {
            unique_from(seen, logged.skip(1), pids)
        }
    }
}

/// The denials of the given processes, each once, in the order of the log.
pub open spec fn unique_denials(logged: Seq<LoggedDenial>, pids: Seq<i32>) -> Seq<
    (Seq<char>, Seq<char>),
> {
    unique_from(Seq::empty(), logged, pids)
}

fn has_pid(pids: &[i32], pid: i32) -> (r: bool)
    ensures
        r == pids@.contains(pid),
{
    let mut i: usize = 0;
    while i < pids.len()
        invariant
            i <= pids@.len(),
            forall|j: int| 0 <= j < i ==> pids@[j] != pid,
        decreases pids@.len() - i,
    {
        if pids[i] == pid {
            return true;
        }
        i += 1;
    }
    false
}

fn has_denial(denials: &Vec<SandboxDenial>, denial: &SandboxDenial) -> (r: bool)
    ensures
        r == denials@.map_values(|d: SandboxDenial| denial_texts(d)).contains(
            denial_texts(*denial),
        ),
{
    let ghost all = denials@.map_values(|d: SandboxDenial| denial_texts(d));
    let mut i: usize = 0;
    while i < denials.len()
        invariant
            i <= denials@.len(),
            all == denials@.map_values(|d: SandboxDenial| denial_texts(d)),
            forall|j: int| 0 <= j < i ==> all[j] != denial_texts(*denial),
        decreases denials@.len() - i,
    {
        assert(all[i as int] == denial_texts(denials@[i as int]));
        if same_text(denials[i].name.as_str(), denial.name.as_str()) && same_text(
            denials[i].capability.as_str(),
            denial.capability.as_str(),
        ) {
            return true;
        }
        i += 1;
    }
    false
}

/// Within a limit, what is kept after a denial was logged fits the limit, is the
/// most recent part of what there was, and ends with the denial, unless that is
/// too long by itself.
pub proof fn law_most_recent_denials_are_kept(s: Seq<LoggedDenial>, d: LoggedDenial, max: nat)
    requires
        total_chars(s) <= max,
    ensures
        total_chars(after_logging(s, d, Some(max))) <= max,
        after_logging(s, d, Some(max)).len() <= s.len() + 1,
        d.chars > max ==> after_logging(s, d, Some(max)) == s,
        d.chars <= max ==> {
            let kept = after_logging(s, d, Some(max));
            &&& kept.len() >= 1
            &&& kept == s.push(d).skip(s.len() + 1 - kept.len())
        },
{
    lemma_make_room(s, d.chars as nat, max);
    let room = make_room(s, d.chars as nat, max);
    if d.chars <= max {
        lemma_total_push(room, d);
        assert(room.push(d) =~= s.push(d).skip(s.len() - room.len()));
    }
}

proof fn lemma_make_room(s: Seq<LoggedDenial>, chars: nat, max: nat)
    ensures
        make_room(s, chars, max).len() <= s.len(),
        make_room(s, chars, max) == s.skip(s.len() - make_room(s, chars, max).len()),
        chars <= max ==> total_chars(make_room(s, chars, max)) + chars <= max,
    decreases s.len(),
{
    if s.len() > 0 && total_chars(s) + chars > max {
        lemma_make_room(s.skip(1), chars, max);
        let room = make_room(s.skip(1), chars, max);
        assert(s.skip(1).skip(s.len() - 1 - room.len()) =~= s.skip(s.len() - room.len()));
    } else {
        assert(s.skip(0) =~= s);
    }
}

/// The denials of a process tree come without repetition, each was logged for
/// one of its processes, and none that was logged for them is missing.
pub proof fn law_denials_are_unique_and_complete(logged: Seq<LoggedDenial>, pids: Seq<i32>)
    ensures
        unique_denials(logged, pids).no_duplicates(),
        forall|d: (Seq<char>, Seq<char>)| #[trigger]
            unique_denials(logged, pids).contains(d) <==> exists|i: int|
                #![trigger logged[i]]
                0 <= i < logged.len() && pids.contains(logged[i].pid) && denial_texts(
                    logged[i].denial,
                ) == d,
{
    lemma_unique_from(Seq::empty(), logged, pids);
}

proof fn lemma_unique_from(
    seen: Seq<(Seq<char>, Seq<char>)>,
    logged: Seq<LoggedDenial>,
    pids: Seq<i32>,
)
    requires
        seen.no_duplicates(),
    ensures
        unique_from(seen, logged, pids).no_duplicates(),
        forall|d: (Seq<char>, Seq<char>)| #[trigger]
            unique_from(seen, logged, pids).contains(d) <==> seen.contains(d) || exists|i: int|
                #![trigger logged[i]]
                0 <= i < logged.len() && pids.contains(logged[i].pid) && denial_texts(
                    logged[i].denial,
                ) == d,
    decreases logged.len(),
{
    if logged.len() > 0 {
        let first = denial_texts(logged[0].denial);
        let rest = logged.skip(1);
        let adds = pids.contains(logged[0].pid) && !seen.contains(first);
        let next = if adds {
            seen.push(first)
        } else {
            seen
        };
        lemma_unique_from(next, rest, pids);
        let out = unique_from(seen, logged, pids);
        assert forall|d: (Seq<char>, Seq<char>)| #[trigger] out.contains(d) <==> seen.contains(d)
            || exists|i: int|
            #![trigger logged[i]]
            0 <= i < logged.len() && pids.contains(logged[i].pid) && denial_texts(
                logged[i].denial,
            ) == d by {
            if out.contains(d) {
                if !next.contains(d) {
                    let i = choose|i: int|
                        #![trigger rest[i]]
                        0 <= i < rest.len() && pids.contains(rest[i].pid) && denial_texts(
                            rest[i].denial,
                        ) == d;
                    assert(logged[i + 1] == rest[i]);
                } else if !seen.contains(d) {
                    let k = choose|k: int| 0 <= k < next.len() && next[k] == d;
                    assert(d == first);
                    assert(logged[0].pid == logged[0].pid);
                }
            }
            if seen.contains(d) {
                let k = choose|k: int| 0 <= k < seen.len() && seen[k] == d;
                assert(next[k] == d);
            }
            if exists|i: int|
                #![trigger logged[i]]
                0 <= i < logged.len() && pids.contains(logged[i].pid) && denial_texts(
                    logged[i].denial,
                ) == d {
                let i = choose|i: int|
                    #![trigger logged[i]]
                    0 <= i < logged.len() && pids.contains(logged[i].pid) && denial_texts(
                        logged[i].denial,
                    ) == d;
                if i == 0 {
                    if adds {
                        assert(next[seen.len() as int] == first);
                    } else {
                        let k = choose|k: int| 0 <= k < seen.len() && seen[k] == first;
                        assert(next[k] == d);
                    }
                    assert(next.contains(d));
                } else {
                    assert(rest[i - 1] == logged[i]);
                }
            }
        }
    }
}

/// The report has a line for each denial, in order, that names the process in
/// parentheses and what was denied.
pub proof fn law_report_has_a_line_for_each_denial(
    denials: Seq<SandboxDenial>,
    d: SandboxDenial,
)
    ensures
        denial_report(Seq::empty()) == "\n=== Sandbox denials ===\n"@,
        denial_report(denials.push(d)) == denial_report(denials) + ("("@ + d.name@ + ") "@
            + d.capability@ + "\n"@),
{
    assert(denials.push(d).drop_last() =~= denials);
    assert(denial_report(Seq::empty()) =~= "\n=== Sandbox denials ===\n"@);
    assert(denial_report(denials.push(d)) =~= denial_report(denials) + ("("@ + d.name@ + ") "@
        + d.capability@ + "\n"@));
}

/// Without a limit every denial is kept; within one, no older denial gives way
/// unless the room is needed.
pub proof fn law_no_denial_gives_way_without_need(s: Seq<LoggedDenial>, d: LoggedDenial, max: nat)
    ensures
        after_logging(s, d, None) == s.push(d),
        total_chars(s) + d.chars <= max ==> after_logging(s, d, Some(max)) == s.push(d),
        d.chars <= max ==> {
            let kept = after_logging(s, d, Some(max)).len() - 1;
            0 <= kept < s.len() ==> total_chars(s.skip(s.len() - kept - 1)) + d.chars > max
        },
{
    if d.chars <= max {
        lemma_room_is_needed(s, d.chars as nat, max);
        lemma_make_room(s, d.chars as nat, max);
    }
}

proof fn lemma_room_is_needed(s: Seq<LoggedDenial>, chars: nat, max: nat)
    ensures
        make_room(s, chars, max).len() <= s.len(),
        make_room(s, chars, max).len() < s.len() ==> total_chars(
            s.skip(s.len() - make_room(s, chars, max).len() - 1),
        ) + chars > max,
    decreases s.len(),
{
    if s.len() > 0 && total_chars(s) + chars > max {
        let rest = s.skip(1);
        lemma_room_is_needed(rest, chars, max);
        let room = make_room(rest, chars, max);
        if room.len() < rest.len() {
            assert(rest.skip(rest.len() - room.len() - 1) =~= s.skip(s.len() - room.len() - 1));
        } else {
            assert(s.skip(0) =~= s);
        }
    }
}

/// The denials of a process tree come in the order in which they were first logged:
/// what is logged later comes behind, or was there already.
pub proof fn law_denials_come_in_the_order_of_the_log(
    logged: Seq<LoggedDenial>,
    later: LoggedDenial,
    pids: Seq<i32>,
)
    ensures
        unique_denials(Seq::empty(), pids) == Seq::<(Seq<char>, Seq<char>)>::empty(),
        ({
            let before = unique_denials(logged, pids);
            let d = (later.denial.name@, later.denial.capability@);
            unique_denials(logged.push(later), pids) == (if pids.contains(later.pid)
                && !before.contains(d) {
                before.push(d)
            } else {
                before
            })
        }),
{
    lemma_unique_push(Seq::empty(), logged, later, pids);
}

proof fn lemma_unique_push(
    seen: Seq<(Seq<char>, Seq<char>)>,
    logged: Seq<LoggedDenial>,
    later: LoggedDenial,
    pids: Seq<i32>,
)
    ensures
        ({
            let before = unique_from(seen, logged, pids);
            let d = denial_texts(later.denial);
            unique_from(seen, logged.push(later), pids) == (if pids.contains(later.pid)
                && !before.contains(d) {
                before.push(d)
            } else {
                before
            })
        }),
    decreases logged.len(),
{
    let all = logged.push(later);
    let d = denial_texts(later.denial);
    if logged.len() == 0 {
        assert(all[0] == later);
        assert(all.skip(1) =~= Seq::<LoggedDenial>::empty());
        assert(unique_from(seen.push(d), all.skip(1), pids) == seen.push(d));
        assert(unique_from(seen, all.skip(1), pids) == seen);
    } else {
        assert(all[0] == logged[0]);
        assert(all.skip(1) =~= logged.skip(1).push(later));
        let first = denial_texts(logged[0].denial);
        lemma_unique_push(seen.push(first), logged.skip(1), later, pids);
        lemma_unique_push(seen, logged.skip(1), later, pids);
    }
}

/// A log message is taken for a denial exactly where it has the parts of one and
/// its number is one of a process; the process and what was denied are then those
/// parts, unchanged.
pub proof fn law_message_keeps_its_parts(name: Seq<char>, pid: nat, capability: Seq<char>)
    ensures
        message_denial(None) is None,
        pid <= 0x7fff_ffff ==> message_denial(Some((name, decimal(pid), capability))) == Some(
            (pid as int, name, capability),
        ),
        pid > 0x7fff_ffff ==> message_denial(Some((name, decimal(pid), capability))) is None,
{
    law_decimal_is_read_back(pid, 0x7fff_ffff);
    lemma_decimal_digits(pid);
    let digits = decimal(pid);
    assert('0' <= digits[0] <= '9' && '0' <= digits[digits.len() - 1] <= '9');
    assert(trim(digits) == digits);
}

/// The log stream tells that it is ready by a line that begins with these words.
pub proof fn law_stream_is_ready_when_it_says_so(rest: Seq<u8>, line: Seq<u8>)
    ensures
        is_ready_line(encode_utf8("Filtering the log data using "@) + rest),
        is_ready_line(line) ==> exists|rest: Seq<u8>|
            line == #[trigger] (encode_utf8("Filtering the log data using "@) + rest),
{
    let head = encode_utf8("Filtering the log data using "@);
    assert((head + rest).take(head.len() as int) =~= head);
    if is_ready_line(line) {
        assert(line =~= head + line.skip(head.len() as int));
    }
}

/// A line of the log stream records a denial exactly where its message does.
pub proof fn law_line_records_what_its_message_says(line: Seq<u8>, message: Seq<char>)
    ensures
        json_text_member(line, "eventMessage"@) is None ==> line_denial(line) is None,
        json_text_member(line, "eventMessage"@) == Some(message) ==> line_denial(line)
            == message_denial(pattern_groups(DENIAL_PATTERN@, message)),
{
}

} // verus!
