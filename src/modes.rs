//! Switching between the application's modes and routing actions to the active one.
use crate::input::same_text;
use vstd::prelude::*;

verus! {

/// The value of a string of decimal digits.
pub open spec fn decimal_value(s: Seq<char>) -> int
    decreases s.len(),
{
    if s.len() == 0 {
        0
    } else {
        decimal_value(s.drop_last()) * 10 + (s.last() as int - '0' as int)
    }
}

/// Whether every character of `s` is a decimal digit.
pub open spec fn all_digits(s: Seq<char>) -> bool {
    forall|i: int| 0 <= i < s.len() ==> '0' <= #[trigger] s[i] <= '9'
}

/// The mode number that a name selects: a string of decimal digits, or one of the names
/// "Switch to mode 1" to "Switch to mode 9".
pub open spec fn mode_named(s: Seq<char>) -> Option<int> {
    if s.len() > 0 && all_digits(s) {
        Some(decimal_value(s))
    } else if s == "Switch to mode 1"@ {
        Some(1)
    } else if s == "Switch to mode 2"@ {
        Some(2)
    } else if s == "Switch to mode 3"@ {
        Some(3)
    } else if s == "Switch to mode 4"@ {
        Some(4)
    } else if s == "Switch to mode 5"@ {
        Some(5)
    } else if s == "Switch to mode 6"@ {
        Some(6)
    } else if s == "Switch to mode 7"@ {
        Some(7)
    } else if s == "Switch to mode 8"@ {
        Some(8)
    } else if s == "Switch to mode 9"@ {
        Some(9)
    } else {
        None
    }
}

proof fn lemma_decimal_grows(s: Seq<char>, i: int)
    requires
        all_digits(s),
        0 <= i <= s.len(),
    ensures
        0 <= decimal_value(s.take(i)) <= decimal_value(s),
    decreases s.len() - i,
{
    if i < s.len() {
        lemma_decimal_grows(s, i + 1);
        assert(s.take(i + 1).drop_last() =~= s.take(i));
        lemma_decimal_nonneg(s.take(i));
    } else {
        assert(s.take(i) =~= s);
        lemma_decimal_nonneg(s);
    }
}

proof fn lemma_decimal_nonneg(s: Seq<char>)
    requires
        all_digits(s),
    ensures
        decimal_value(s) >= 0,
    decreases s.len(),
{
    if s.len() > 0 {
        lemma_decimal_nonneg(s.drop_last());
    }
}

/// The value of `name` when it is a nonempty string of decimal digits that fits a `usize`.
fn digits_value(name: &str) -> (r: Option<usize>)
    ensures
        r == (if name@.len() > 0 && all_digits(name@) && decimal_value(name@) <= usize::MAX {
            Some(decimal_value(name@) as usize)
        } else {
            None
        }),
{
    let n = name.unicode_len();
    if n == 0 {
        return None;
    }
    let mut v: u128 = 0;
    let mut i: usize = 0;
    while i < n
        invariant
            n == name@.len(),
            i <= n,
            all_digits(name@.take(i as int)),
            v == decimal_value(name@.take(i as int)),
            v <= usize::MAX,
        decreases n - i,
    {
        let c = name.get_char(i);
        if c < '0' || c > '9' {
            assert(!all_digits(name@));
            return None;
        }
        assert(name@.take(i + 1).drop_last() =~= name@.take(i as int));
        assert(name@.take(i + 1).last() == c);
        let next: u128 = v * 10 + (c as u128 - '0' as u128);
        assert(all_digits(name@.take(i + 1)));
        if next > usize::MAX as u128 {
            proof {
                if all_digits(name@) {
                    lemma_decimal_grows(name@, i + 1);
                }
            }
            return None;
        }
        v = next;
        i += 1;
    }
    assert(name@.take(n as int) =~= name@);
    Some(v as usize)
}

/// The active mode (numbered from 1), how many modes there are, and whether help is shown.
#[derive(Clone, Copy, Debug)]
pub struct ModeSelector {
    pub mode: usize,
    pub mode_count: usize,
    pub show_help: bool,
}

/// A change of the active mode.
#[derive(Clone, Copy, Debug, PartialEq, Eq, Structural)]
pub struct ModeSwitch {
    pub from: usize,
    pub to: usize,
}

/// What the application does with an action, in this order: hand it to the active mode as the
/// help screen opens; reset the mode left and the mode entered; hand it to the active mode.
#[derive(Clone, Copy, Debug, PartialEq, Eq, Structural)]
pub struct ModeDispatch {
    pub notify_help: bool,
    pub switched: Option<ModeSwitch>,
    pub forward: bool,
}

/// The selector after an action named `name`, and what the application does with it.
pub open spec fn after_mode_action(m: ModeSelector, name: Seq<char>) -> (ModeSelector, ModeDispatch) {
    let help = name == "Show help"@;
    let opening = help && !m.show_help;
    let shown = if help {
        !m.show_help
    } else {
        m.show_help
    };
    let target = mode_named(name);
    if target is Some && target.unwrap() != m.mode && 1 <= target.unwrap() <= m.mode_count {
        (
            ModeSelector { mode: target.unwrap() as usize, show_help: shown, ..m },
            ModeDispatch {
                notify_help: opening,
                switched: Some(ModeSwitch { from: m.mode, to: target.unwrap() as usize }),
                forward: false,
            },
        )
    } else {
        (
            ModeSelector { show_help: shown, ..m },
            ModeDispatch { notify_help: opening, switched: None, forward: !shown },
        )
    }
}

fn named_mode(name: &str) -> (r: Option<usize>)
    ensures
        r matches Some(v) ==> mode_named(name@) == Some(v as int),
        r is None ==> mode_named(name@) is None || mode_named(name@).unwrap() > usize::MAX,
{
    match digits_value(name) {
        Some(v) => {
            proof {
                lemma_decimal_nonneg(name@);
            }
            Some(v)
        },
        None => {
            if name.unicode_len() > 0 && all_digits_exec(name) {
                None
            } else if same_text(name, "Switch to mode 1") {
                Some(1)
            } else if same_text(name, "Switch to mode 2") {
                Some(2)
            } else if same_text(name, "Switch to mode 3") {
                Some(3)
            } else if same_text(name, "Switch to mode 4") {
                Some(4)
            } else if same_text(name, "Switch to mode 5") {
                Some(5)
            } else if same_text(name, "Switch to mode 6") {
                Some(6)
            } else if same_text(name, "Switch to mode 7") {
                Some(7)
            } else if same_text(name, "Switch to mode 8") {
                Some(8)
            } else if same_text(name, "Switch to mode 9") {
                Some(9)
            } else {
                None
            }
        },
    }
}

fn all_digits_exec(name: &str) -> (r: bool)
    ensures
        r == all_digits(name@),
{
    let n = name.unicode_len();
    let mut i: usize = 0;
    while i < n
        invariant
            n == name@.len(),
            i <= n,
            forall|j: int| 0 <= j < i ==> '0' <= #[trigger] name@[j] <= '9',
        decreases n - i,
    {
        let c = name.get_char(i);
        if c < '0' || c > '9' {
            return false;
        }
        i += 1;
    }
    true
}

impl ModeSelector {
    /// `mode_count` modes, the first one active, help hidden.
    pub fn new(mode_count: usize) -> (r: ModeSelector)
        ensures
            r == (ModeSelector { mode: 1, mode_count, show_help: false }),
    {
        ModeSelector { mode: 1, mode_count, show_help: false }
    }

    /// Reacts to the action named `name`: toggles help, switches to a numbered mode that exists
    /// and is not the active one, or hands the action on while help is hidden.
    pub fn handle_input(&mut self, name: &str) -> (r: ModeDispatch)
        ensures
            (*final(self), r) == after_mode_action(*old(self), name@),
    {
        let help = same_text(name, "Show help");
        let opening = help && !self.show_help;
        if help {
            self.show_help = !self.show_help;
        }
        let target = named_mode(name);
        let switching = match target {
            Some(k) => k != self.mode && 1 <= k && k <= self.mode_count,
            None => false,
        };
        if switching {
            let from = self.mode;
            let to = target.unwrap();
            self.mode = to;
            ModeDispatch { notify_help: opening, switched: Some(ModeSwitch { from, to }), forward: false }
        } else {
            ModeDispatch { notify_help: opening, switched: None, forward: !self.show_help }
        }
    }
}

} // verus!
