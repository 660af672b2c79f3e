//! The control sequences that set and clear a tab status.
use vstd::prelude::*;
use super::detail::escaped;
use super::detail::sanitize_detail;
use super::detail::visible;
use crate::text::chars::chars_of;
use crate::text::chars::push_text;
use crate::text::chars::string_of;

verus! {

/// A tab status.
#[derive(Debug, Clone, Copy, PartialEq, Eq, Structural)]
pub enum TabStatus {
    /// Something is being done.
    Working,
    /// An answer is awaited.
    Waiting,
    /// Nothing is being done.
    Idle,
}

impl TabStatus {
    /// The name that is shown.
    pub open spec fn label_text(self) -> Seq<char> {
        match self {
            TabStatus::Working => "Working"@,
            TabStatus::Waiting => "Waiting"@,
            TabStatus::Idle => "Idle"@,
        }
    }

    /// The colour of the mark.
    pub open spec fn indicator_text(self) -> Seq<char> {
        match self {
            TabStatus::Working => "#ff9500"@,
            TabStatus::Waiting => "#5f87ff"@,
            TabStatus::Idle => "#00d75f"@,
        }
    }

    /// The colour of the text.
    pub open spec fn color_text(self) -> Seq<char> {
        match self {
            TabStatus::Working => "#ff9500"@,
            TabStatus::Waiting => "#5f87ff"@,
            TabStatus::Idle => "#888888"@,
        }
    }

    /// The name that is shown.
    pub fn label(self) -> (r: &'static str)
        ensures
            r@ == self.label_text(),
    {
        match self {
            TabStatus::Working => "Working",
            TabStatus::Waiting => "Waiting",
            TabStatus::Idle => "Idle",
        }
    }

    /// The colour of the mark.
    pub fn indicator(self) -> (r: &'static str)
        ensures
            r@ == self.indicator_text(),
    {
        match self {
            TabStatus::Working => "#ff9500",
            TabStatus::Waiting => "#5f87ff",
            TabStatus::Idle => "#00d75f",
        }
    }

    /// The colour of the text.
    pub fn text_color(self) -> (r: &'static str)
        ensures
            r@ == self.color_text(),
    {
        match self {
            TabStatus::Working => "#ff9500",
            TabStatus::Waiting => "#5f87ff",
            TabStatus::Idle => "#888888",
        }
    }
}

/// A control sequence with the given values. Each field is always there, so that
/// none keeps an old value.
pub open spec fn sequence(
    status: Seq<char>,
    indicator: Seq<char>,
    color: Seq<char>,
    detail: Seq<char>,
) -> Seq<char> {
    "\x1b]21337;status="@ + status + ";indicator="@ + indicator + ";status-color="@ + color
        + ";detail="@ + detail + "\x07"@
}

fn write_sequence(status: &str, indicator: &str, color: &str, detail: &str) -> (r: String)
    ensures
        r@ == sequence(status@, indicator@, color@, detail@),
{
    let mut out = chars_of("\x1b]21337;status=");
    push_text(&mut out, status);
    push_text(&mut out, ";indicator=");
    push_text(&mut out, indicator);
    push_text(&mut out, ";status-color=");
    push_text(&mut out, color);
    push_text(&mut out, ";detail=");
    push_text(&mut out, detail);
    push_text(&mut out, "\x07");
    string_of(&out)
}

/// The sequence that sets a status, with a detail that is a value already.
pub open spec fn set_sequence(status: TabStatus, detail: Option<Seq<char>>) -> Seq<char> {
    sequence(
        status.label_text(),
        status.indicator_text(),
        status.color_text(),
        match detail {
            Some(d) => d,
            None => ""@,
        },
    )
}

/// The sequence that clears the status.
pub open spec fn clear_sequence() -> Seq<char> {
    sequence(""@, ""@, ""@, ""@)
}

/// Sets a status, with a detail that is a value already.
#[derive(Debug, Clone, PartialEq, Eq)]
pub struct SetTabStatus(pub TabStatus, pub Option<String>);

impl SetTabStatus {
    /// The control sequence.
    pub fn ansi(&self) -> (r: String)
        ensures
            r@ == set_sequence(self.0, self.1.deep_view()),
    {
        let status = self.0;
        match &self.1 {
            Some(detail) => write_sequence(
                status.label(),
                status.indicator(),
                status.text_color(),
                detail.as_str(),
            ),
            None => write_sequence(status.label(), status.indicator(), status.text_color(), ""),
        }
    }
}

/// Clears the status.
#[derive(Debug, Clone, Copy, PartialEq, Eq, Structural)]
pub struct ClearTabStatus;

impl ClearTabStatus {
    /// The control sequence.
    pub fn ansi(&self) -> (r: String)
        ensures
            r@ == clear_sequence(),
    {
        write_sequence("", "", "", "")
    }
}

/// What the terminal was sent: a status is cleared only if one was set.
#[derive(Debug, Clone, Copy, PartialEq, Eq, Structural)]
pub struct TabStatusOutput {
    /// Whether a status is set.
    pub emitted: bool,
}

impl TabStatusOutput {
    /// Nothing was sent.
    pub fn new() -> (r: Self)
        ensures
            !r.emitted,
    {
        TabStatusOutput { emitted: false }
    }

    /// What to send in order to set a status; nothing where there is no terminal.
    pub fn set_tab_status(&self, is_terminal: bool, status: TabStatus, detail: Option<&str>) -> (r:
        Option<String>)
        ensures
            r.deep_view() == (if is_terminal {
                Some(
                    set_sequence(
                        status,
                        match detail {
                            Some(d) => Some(escaped(visible(d@))),
                            None => None,
                        },
                    ),
                )
            } else {
                None
            }),
    {
        if !is_terminal {
            return None;
        }
        let detail = match detail {
            Some(detail) => Some(sanitize_detail(detail)),
            None => None,
        };
        Some(SetTabStatus(status, detail).ansi())
    }

    /// Takes up that a status was sent.
    pub fn status_set(&mut self)
        ensures
            final(self).emitted,
    {
        self.emitted = true;
    }

    /// What to send in order to clear the status; nothing where there is no
    /// terminal or no status is set.
    pub fn clear_tab_status(&self, is_terminal: bool) -> (r: Option<String>)
        ensures
            r.deep_view() == (if is_terminal && self.emitted {
                Some(clear_sequence())
            } else {
                None
            }),
    {
        if !is_terminal || !self.emitted {
            return None;
        }
        Some(ClearTabStatus.ansi())
    }

    /// Takes up that the status was cleared.
    pub fn status_cleared(&mut self)
        ensures
            !final(self).emitted,
    {
        self.emitted = false;
    }
}

/// A sequence sets the name, the two colours and the detail of its status, and
/// nothing of an earlier one is left: a status without a detail empties it, and
/// clearing empties all four.
pub proof fn law_each_sequence_sets_every_field(detail: Seq<char>)
    ensures
        set_sequence(TabStatus::Working, Some(detail))
            == "\x1b]21337;status=Working;indicator=#ff9500;status-color=#ff9500;detail="@ + detail
            + "\x07"@,
        set_sequence(TabStatus::Waiting, Some(detail))
            == "\x1b]21337;status=Waiting;indicator=#5f87ff;status-color=#5f87ff;detail="@ + detail
            + "\x07"@,
        set_sequence(TabStatus::Idle, Some(detail))
            == "\x1b]21337;status=Idle;indicator=#00d75f;status-color=#888888;detail="@ + detail
            + "\x07"@,
        clear_sequence() == "\x1b]21337;status=;indicator=;status-color=;detail=\x07"@,
{
    reveal_strlit("\x1b]21337;status=");
    reveal_strlit(";indicator=");
    reveal_strlit(";status-color=");
    reveal_strlit(";detail=");
    reveal_strlit("\x07");
    reveal_strlit("");
    reveal_strlit("Working");
    reveal_strlit("Waiting");
    reveal_strlit("Idle");
    reveal_strlit("#ff9500");
    reveal_strlit("#5f87ff");
    reveal_strlit("#00d75f");
    reveal_strlit("#888888");
    reveal_strlit("\x1b]21337;status=Working;indicator=#ff9500;status-color=#ff9500;detail=");
    reveal_strlit("\x1b]21337;status=Waiting;indicator=#5f87ff;status-color=#5f87ff;detail=");
    reveal_strlit("\x1b]21337;status=Idle;indicator=#00d75f;status-color=#888888;detail=");
    reveal_strlit("\x1b]21337;status=;indicator=;status-color=;detail=\x07");
    assert("\x1b]21337;status="@ + "Working"@ + ";indicator="@ + "#ff9500"@ + ";status-color="@
        + "#ff9500"@ + ";detail="@
        =~= "\x1b]21337;status=Working;indicator=#ff9500;status-color=#ff9500;detail="@);
    assert("\x1b]21337;status="@ + "Waiting"@ + ";indicator="@ + "#5f87ff"@ + ";status-color="@
        + "#5f87ff"@ + ";detail="@
        =~= "\x1b]21337;status=Waiting;indicator=#5f87ff;status-color=#5f87ff;detail="@);
    assert("\x1b]21337;status="@ + "Idle"@ + ";indicator="@ + "#00d75f"@ + ";status-color="@
        + "#888888"@ + ";detail="@
        =~= "\x1b]21337;status=Idle;indicator=#00d75f;status-color=#888888;detail="@);
    assert(clear_sequence() =~= "\x1b]21337;status=;indicator=;status-color=;detail=\x07"@);
}

/// A status without a detail is set as one with an empty detail.
pub proof fn law_missing_detail_is_an_empty_one(status: TabStatus)
    ensures
        set_sequence(status, None) == set_sequence(status, Some(Seq::empty())),
{
    reveal_strlit("");
    assert(""@ =~= Seq::<char>::empty());
}

} // verus!
