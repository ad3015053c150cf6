//! The debugger's commands: the text form in which a front end sends them,
//! and the state that they act on.

use vstd::prelude::*;

verus! {

/// A command to the debugger.
#[derive(Clone, Copy, Debug, PartialEq, Eq, Structural)]
pub enum Action {
    /// Execute one instruction.
    Next,
    /// Execute this many instructions.
    Step(u64),
    /// Pause whenever the program counter reaches this address.
    AddBreakPtn(u64),
    /// No longer pause at this address.
    DelBreakPtn(u64),
}

/// Whether `c` is white space: one of the characters that `str::trim`
/// removes.
pub open spec fn spec_is_space(c: char) -> bool {
    let u = c as u32;
    (0x09 <= u <= 0x0D) || u == 0x20 || u == 0x85 || u == 0xA0 || u == 0x1680 || (0x2000 <= u
        <= 0x200A) || u == 0x2028 || u == 0x2029 || u == 0x202F || u == 0x205F || u == 0x3000
}

/// The first index in `from..to` at which `s` holds `c`, or `to`.
pub open spec fn spec_find(s: Seq<char>, c: char, from: int, to: int) -> int
    decreases to - from,
{
    if from >= to {
        to
    } else if s[from] == c {
        from
    } else {
        spec_find(s, c, from + 1, to)
    }
}

/// The first index in `from..to` at which `s` holds no white space, or
/// `to`.
pub open spec fn spec_skip_spaces(s: Seq<char>, from: int, to: int) -> int
    decreases to - from,
{
    if from >= to {
        to
    } else if !spec_is_space(s[from]) {
        from
    } else {
        spec_skip_spaces(s, from + 1, to)
    }
}

/// The end of the part of `from..to` that is left when trailing white
/// space is cut off.
pub open spec fn spec_drop_spaces(s: Seq<char>, from: int, to: int) -> int
    decreases to - from,
{
    if from >= to {
        from
    } else if !spec_is_space(s[to - 1]) {
        to
    } else {
        spec_drop_spaces(s, from, to - 1)
    }
}

/// `s` without leading and trailing white space.
pub open spec fn spec_trim(s: Seq<char>) -> Seq<char> {
    let start = spec_skip_spaces(s, 0, s.len() as int);
    s.subrange(start, spec_drop_spaces(s, start, s.len() as int))
}

/// Whether `c` is one of the ten digits.
pub open spec fn spec_is_digit(c: char) -> bool {
    '0' <= c <= '9'
}

/// The number that a string of digits writes in base ten.
pub open spec fn spec_number(s: Seq<char>) -> nat
    decreases s.len(),
{
    if s.len() == 0 {
        0
    } else {
        spec_number(s.drop_last()) * 10 + (s.last() as u32 - '0' as u32) as nat
    }
}

/// The digits of a number's text: the text without a leading plus sign.
pub open spec fn spec_digits(s: Seq<char>) -> Seq<char> {
    if s.len() > 0 && s[0] == '+' {
        s.subrange(1, s.len() as int)
    } else {
        s
    }
}

/// The number that `s` writes, if `s` is an optional plus sign and then one
/// or more digits that write a number below 2^64.
pub open spec fn spec_parse(s: Seq<char>) -> Option<u64> {
    let digits = spec_digits(s);
    if digits.len() > 0 && (forall|i: int| 0 <= i < digits.len() ==> spec_is_digit(#[trigger] digits[i]))
        && spec_number(digits) <= u64::MAX {
        Some(spec_number(digits) as u64)
    } else {
        None
    }
}

/// The action that a command with name `name` and option `opt` stands
/// for.
pub open spec fn spec_action(name: Seq<char>, opt: u64) -> Result<Action, ()> {
    if name == "Next"@ {
        Ok(Action::Next)
    } else if name == "Step"@ {
        Ok(Action::Step(opt))
    } else if name == "AddBreakPtn"@ {
        Ok(Action::AddBreakPtn(opt))
    } else if name == "DelBreakPtn"@ {
        Ok(Action::DelBreakPtn(opt))
    } else {
        Err(())
    }
}

/// The action that the message `s` stands for. The message is a name,
/// then, after a comma, an option, each with white space around it allowed;
/// what follows a second comma is ignored. The option is a number above
/// zero. Only `Next` may come without an option.
pub open spec fn spec_handle(s: Seq<char>) -> Result<Action, ()> {
    let len = s.len() as int;
    let comma = spec_find(s, ',', 0, len);
    let name = spec_trim(s.subrange(0, comma));
    if comma == len {
        if name == "Next"@ {
            Ok(Action::Next)
        } else {
            Err(())
        }
    } else {
        let end = spec_find(s, ',', comma + 1, len);
        match spec_parse(spec_trim(s.subrange(comma + 1, end))) {
            Some(opt) => if opt == 0 {
                Err(())
            } else {
                spec_action(name, opt)
            },
            None => Err(()),
        }
    }
}

/// Whether `c` is white space.
pub fn is_space(c: char) -> (r: bool)
    ensures
        r == spec_is_space(c),
{
    let u = c as u32;
    (0x09 <= u && u <= 0x0D) || u == 0x20 || u == 0x85 || u == 0xA0 || u == 0x1680 || (0x2000 <= u
        && u <= 0x200A) || u == 0x2028 || u == 0x2029 || u == 0x202F || u == 0x205F || u == 0x3000
}

/// The characters of a text.
pub fn chars_of(s: &str) -> (v: Vec<char>)
    ensures
        v@ == s@,
{
    let n = s.unicode_len();
    let mut v: Vec<char> = Vec::with_capacity(n);
    let mut i: usize = 0;
    while i < n
        invariant
            n == s@.len(),
            i <= n,
            v@ == s@.subrange(0, i as int),
        decreases n - i,
    {
        v.push(s.get_char(i));
        i = i + 1;
        assert(v@ =~= s@.subrange(0, i as int));
    }
    assert(s@.subrange(0, n as int) =~= s@);
    v
}

/// The first index in `from..to` at which `s` holds `c`, or `to`.
pub fn find(s: &Vec<char>, c: char, from: usize, to: usize) -> (at: usize)
    requires
        from <= to <= s@.len(),
    ensures
        at == spec_find(s@, c, from as int, to as int),
        from <= at <= to,
{
    let mut i = from;
    while i < to && s[i] != c
        invariant
            from <= i <= to <= s@.len(),
            spec_find(s@, c, from as int, to as int) == spec_find(s@, c, i as int, to as int),
        decreases to - i,
    {
        i = i + 1;
    }
    i
}

/// The bounds of the part of `from..to` that is left when the white space
/// at both ends is cut off.
pub fn trim(s: &Vec<char>, from: usize, to: usize) -> (r: (usize, usize))
    requires
        from <= to <= s@.len(),
    ensures
        from <= r.0 <= r.1 <= to,
        s@.subrange(r.0 as int, r.1 as int) == spec_trim(s@.subrange(from as int, to as int)),
{
    let ghost part = s@.subrange(from as int, to as int);
    let mut a = from;
    while a < to && is_space(s[a])
        invariant
            from <= a <= to <= s@.len(),
            part == s@.subrange(from as int, to as int),
            spec_skip_spaces(part, 0, part.len() as int) == spec_skip_spaces(
                part,
                a - from,
                part.len() as int,
            ),
        decreases to - a,
    {
        a = a + 1;
    }
    let mut b = to;
    while a < b && is_space(s[b - 1])
        invariant
            from <= a <= b <= to <= s@.len(),
            part == s@.subrange(from as int, to as int),
            spec_drop_spaces(part, a - from, part.len() as int) == spec_drop_spaces(
                part,
                a - from,
                b - from,
            ),
        decreases b - a,
    {
        b = b - 1;
    }
    assert(part.subrange(a - from, b - from) =~= s@.subrange(a as int, b as int));
    (a, b)
}

/// Appending a digit to a string of digits cannot make its number smaller.
pub proof fn lemma_number_grows(s: Seq<char>, k: int)
    requires
        0 <= k <= s.len(),
        forall|i: int| 0 <= i < s.len() ==> spec_is_digit(#[trigger] s[i]),
    ensures
        spec_number(s.subrange(0, k)) <= spec_number(s),
    decreases s.len() - k,
{
    if k < s.len() {
        let longer = s.subrange(0, k + 1);
        assert(longer.drop_last() =~= s.subrange(0, k));
        assert(spec_is_digit(s[k]));
        lemma_number_grows(s, k + 1);
    } else {
        assert(s.subrange(0, k) =~= s);
    }
}

/// The number that the characters `from..to` of `s` write.
pub fn parse(s: &Vec<char>, from: usize, to: usize) -> (r: Option<u64>)
    requires
        from <= to <= s@.len(),
    ensures
        r == spec_parse(s@.subrange(from as int, to as int)),
{
    let ghost text = s@.subrange(from as int, to as int);
    let start = if from < to && s[from] == '+' {
        from + 1
    } else {
        from
    };
    let ghost digits = spec_digits(text);
    assert(digits =~= s@.subrange(start as int, to as int));
    if start == to {
        return None;
    }
    let mut acc: u64 = 0;
    let mut i = start;
    while i < to
        invariant
            from <= start <= i <= to <= s@.len(),
            start < to,
            digits == s@.subrange(start as int, to as int),
            digits == spec_digits(s@.subrange(from as int, to as int)),
            forall|k: int| 0 <= k < i - start ==> spec_is_digit(#[trigger] digits[k]),
            acc == spec_number(digits.subrange(0, i - start)),
        decreases to - i,
    {
        let c = s[i];
        if !('0' <= c && c <= '9') {
            assert(!spec_is_digit(digits[i - start]));
            return None;
        }
        let d = (c as u32 - '0' as u32) as u64;
        proof {
            let longer = digits.subrange(0, i - start + 1);
            assert(longer.drop_last() =~= digits.subrange(0, i - start));
            assert(longer.last() == c);
            assert(spec_number(longer) == acc * 10 + d);
        }
        if acc > (u64::MAX - d) / 10 {
            proof {
                if forall|k: int| 0 <= k < digits.len() ==> spec_is_digit(#[trigger] digits[k]) {
                    lemma_number_grows(digits, i - start + 1);
                }
            }
            return None;
        }
        acc = acc * 10 + d;
        i = i + 1;
    }
    assert(digits.subrange(0, to - start) =~= digits);
    Some(acc)
}

/// Whether the characters `from..to` of `s` spell `word`.
pub fn spells(s: &Vec<char>, from: usize, to: usize, word: &str) -> (r: bool)
    requires
        from <= to <= s@.len(),
    ensures
        r == (s@.subrange(from as int, to as int) == word@),
{
    let n = word.unicode_len();
    if to - from != n {
        return false;
    }
    let mut i: usize = 0;
    while i < n
        invariant
            from <= to <= s@.len(),
            to - from == n,
            n == word@.len(),
            i <= n,
            forall|k: int| 0 <= k < i ==> s@[from + k] == word@[k],
        decreases n - i,
    {
        if s[from + i] != word.get_char(i) {
            assert(s@.subrange(from as int, to as int)[i as int] != word@[i as int]);
            return false;
        }
        i = i + 1;
    }
    assert(s@.subrange(from as int, to as int) =~= word@);
    true
}

/// Reads a message as an action.
pub fn handle(s: &str) -> (r: Result<Action, ()>)
    ensures
        r == spec_handle(s@),
{
    let text = chars_of(s);
    let len = text.len();
    let comma = find(&text, ',', 0, len);
    let (a, b) = trim(&text, 0, comma);
    if comma == len {
        return if spells(&text, a, b, "Next") {
            Ok(Action::Next)
        } else {
            Err(())
        };
    }
    let end = find(&text, ',', comma + 1, len);
    let (c, d) = trim(&text, comma + 1, end);
    let opt: u64 = match parse(&text, c, d) {
        Some(u) => if u == 0 {
            return Err(());
        } else {
            u
        },
        None => return Err(()),
    };
    if spells(&text, a, b, "Next") {
        Ok(Action::Next)
    } else if spells(&text, a, b, "Step") {
        Ok(Action::Step(opt))
    } else if spells(&text, a, b, "AddBreakPtn") {
        Ok(Action::AddBreakPtn(opt))
    } else if spells(&text, a, b, "DelBreakPtn") {
        Ok(Action::DelBreakPtn(opt))
    } else {
        Err(())
    }
}

/// The debugger: the number of instructions that may still run before the
/// next pause, the addresses at which to pause, and whether the last command
/// released the machine, so that the next instruction runs even at a
/// breakpoint.
pub struct Debugger {
    pub step: u64,
    breakpoints: Vec<u64>,
    released: bool,
}

/// The debugger as plain values.
pub ghost struct DebuggerView {
    pub step: u64,
    pub breakpoints: Set<u64>,
    pub released: bool,
}

impl DebuggerView {
    /// The state after a command: `Next` allows one instruction, `Step`
    /// allows the number it carries, and both release the machine; the two
    /// others add and remove a breakpoint.
    pub open spec fn spec_apply(self, action: Action) -> DebuggerView {
        match action {
            Action::Next => DebuggerView { step: 1, released: true, ..self },
            Action::Step(n) => DebuggerView { step: n, released: true, ..self },
            Action::AddBreakPtn(at) => DebuggerView {
                breakpoints: self.breakpoints.insert(at),
                ..self
            },
            Action::DelBreakPtn(at) => DebuggerView {
                breakpoints: self.breakpoints.remove(at),
                ..self
            },
        }
    }

    /// Whether the machine must wait for a command before the instruction
    /// at `pc`: no instruction is allowed, or `pc` is a breakpoint and the
    /// machine has run since the last command.
    pub open spec fn spec_pauses_at(self, pc: u16) -> bool {
        self.step == 0 || (!self.released && self.breakpoints.contains(pc as u64))
    }

    /// The state after an instruction has run: one instruction fewer is
    /// allowed, and breakpoints count again.
    pub open spec fn spec_stepped(self) -> DebuggerView {
        DebuggerView {
            step: if self.step == 0 {
                0
            } else {
                (self.step - 1) as u64
            },
            released: false,
            ..self
        }
    }
}

impl View for Debugger {
    type V = DebuggerView;

    closed spec fn view(&self) -> DebuggerView {
        DebuggerView {
            step: self.step,
            breakpoints: self.breakpoints@.to_set(),
            released: self.released,
        }
    }
}

impl Debugger {
    /// A debugger that pauses before the first instruction and has no
    /// breakpoint.
    pub fn new() -> (d: Debugger)
        ensures
            d@ == (DebuggerView { step: 0, breakpoints: Set::empty(), released: false }),
    {
        let d = Debugger { step: 0, breakpoints: Vec::new(), released: false };
        assert(d.breakpoints@.to_set() =~= Set::<u64>::empty());
        d
    }

    /// Whether `at` is a breakpoint.
    pub fn has_breakpoint(&self, at: u64) -> (r: bool)
        ensures
            r == self@.breakpoints.contains(at),
    {
        let mut i: usize = 0;
        while i < self.breakpoints.len()
            invariant
                i <= self.breakpoints@.len(),
                forall|k: int| 0 <= k < i ==> self.breakpoints@[k] != at,
            decreases self.breakpoints@.len() - i,
        {
            if self.breakpoints[i] == at {
                return true;
            }
            i = i + 1;
        }
        false
    }

    /// Carries out a command.
    pub fn apply(&mut self, action: Action)
        ensures
            final(self)@ == old(self)@.spec_apply(action),
    {
        match action {
            Action::Next => {
                self.step = 1;
                self.released = true;
            },
            Action::Step(n) => {
                self.step = n;
                self.released = true;
            },
            Action::AddBreakPtn(at) => {
                if !self.has_breakpoint(at) {
                    self.breakpoints.push(at);
                }
                assert(self.breakpoints@.to_set() =~= old(self).breakpoints@.to_set().insert(at)) by {
                    assert forall|x: u64|
                        self.breakpoints@.contains(x) <==> old(self).breakpoints@.contains(x) || x
                            == at by {
                        if old(self).breakpoints@.contains(at) {
                        } else {
                            let before = old(self).breakpoints@;
                            assert(self.breakpoints@ == before.push(at));
                            if before.contains(x) {
                                let k = choose|k: int| 0 <= k < before.len() && before[k] == x;
                                assert(self.breakpoints@[k] == x);
                            }
                            if x == at {
                                assert(self.breakpoints@[before.len() as int] == x);
                            }
                        }
                    }
                }
            },
            Action::DelBreakPtn(at) => {
                let mut kept: Vec<u64> = Vec::new();
                let mut i: usize = 0;
                while i < self.breakpoints.len()
                    invariant
                        i <= self.breakpoints@.len(),
                        *self == *old(self),
                        forall|x: u64|
                            #[trigger] kept@.contains(x) <==> x != at && self.breakpoints@.subrange(
                                0,
                                i as int,
                            ).contains(x),
                    decreases self.breakpoints@.len() - i,
                {
                    let x = self.breakpoints[i];
                    let ghost seen = self.breakpoints@.subrange(0, i as int);
                    let ghost more = self.breakpoints@.subrange(0, i + 1);
                    let ghost before = kept@;
                    if x != at {
                        kept.push(x);
                    }
                    proof {
                        assert(more =~= seen.push(x));
                        assert forall|y: u64| #[trigger] kept@.contains(y) <==> y != at && more.contains(y) by {
                            if more.contains(y) {
                                let k = choose|k: int| 0 <= k < more.len() && more[k] == y;
                                if k < i {
                                    assert(seen[k] == y);
                                }
                            }
                            if seen.contains(y) {
                                let k = choose|k: int| 0 <= k < seen.len() && seen[k] == y;
                                assert(more[k] == y);
                            }
                            assert(more[i as int] == x);
                            if before.contains(y) {
                                let k = choose|k: int| 0 <= k < before.len() && before[k] == y;
                                assert(kept@[k] == y);
                            }
                            if x != at {
                                assert(kept@ == before.push(x));
                                assert(kept@[before.len() as int] == x);
                            }
                        }
                    }
                    i = i + 1;
                    assert(self.breakpoints@.subrange(0, i as int) == more);
                }
                proof {
                    assert(self.breakpoints@.subrange(0, i as int) =~= self.breakpoints@);
                    assert(kept@.to_set() =~= old(self).breakpoints@.to_set().remove(at));
                }
                self.breakpoints = kept;
            },
        }
    }

    /// Whether the machine must wait for a command before the instruction
    /// at `pc`.
    pub fn pauses_at(&self, pc: u16) -> (r: bool)
        ensures
            r == self@.spec_pauses_at(pc),
    {
        self.step == 0 || (!self.released && self.has_breakpoint(pc as u64))
    }

    /// Records that an instruction has run.
    pub fn stepped(&mut self)
        ensures
            final(self)@ == old(self)@.spec_stepped(),
    {
        if self.step > 0 {
            self.step = self.step - 1;
        }
        self.released = false;
    }
}

} // verus!