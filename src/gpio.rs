//! The pin emulator and its mathematical model.
use vstd::prelude::*;
use vstd::string::*;

verus! {

/// Why an operation on an enforcing pin departed from its script.
#[derive(Debug, Clone, Copy, PartialEq, Eq, Structural)]
pub enum PinError {
    /// Every value of the script had already been consumed; `consumed` counts the
    /// operations made before, so the failing operation was number `consumed + 1`.
    Exhausted { consumed: usize },
    /// The script expected `expected` as operation number `index` (counted from 1),
    /// and the other level was written.
    Mismatch { expected: bool, index: usize },
}

/// A digital pin that is driven by a script (enforcing mode) or records what is
/// written to it (monitor mode).
pub struct DigitalIOMock {
    name: &'static str,
    data: Vec<bool>,
    last: bool,
    count: usize,
    enforce: bool,
}

/// What a pin holds, as mathematical values.
pub struct PinModel {
    /// The display name.
    pub label: Seq<char>,
    /// The script (enforcing mode) or the levels recorded so far (monitor mode).
    pub data: Seq<bool>,
    /// The value that the most recent successful read returned.
    pub last: bool,
    /// How many reads and enforced writes have been made; those that found the
    /// data used up count too.
    pub cursor: nat,
    /// Enforcing mode when true, monitor mode when false.
    pub enforce: bool,
}

impl PinModel {
    /// Every value of the data has been consumed: the next operation finds none.
    pub open spec fn exhausted(self) -> bool {
        self.cursor >= self.data.len()
    }
}

/// A fresh pin in enforcing mode with script `s`.
pub open spec fn enforcing_model(label: Seq<char>, s: Seq<bool>) -> PinModel {
    PinModel { label, data: s, last: false, cursor: 0, enforce: true }
}

/// A fresh pin in monitor mode.
pub open spec fn monitor_model(label: Seq<char>) -> PinModel {
    PinModel { label, data: Seq::empty(), last: false, cursor: 0, enforce: false }
}

/// Writing level `v` (false: low, true: high): the new state and the outcome.
pub open spec fn write_step(m: PinModel, v: bool) -> (PinModel, Result<(), PinError>) {
    if !m.enforce {
        (PinModel { data: m.data.push(v), ..m }, Ok(()))
    } else if m.exhausted() {
        (PinModel { cursor: m.cursor + 1, ..m }, Err(PinError::Exhausted { consumed: m.cursor as usize }))
    } else if m.data[m.cursor as int] != v {
        (
            PinModel { cursor: m.cursor + 1, ..m },
            Err(PinError::Mismatch { expected: m.data[m.cursor as int], index: (m.cursor + 1) as usize }),
        )
    } else {
        (PinModel { cursor: m.cursor + 1, ..m }, Ok(()))
    }
}

/// Reading the level: the new state and whether the pin reads high.
/// Every read advances the cursor; past the end of the data the last value
/// read is returned.
pub open spec fn read_step(m: PinModel) -> (PinModel, bool) {
    if m.exhausted() {
        (PinModel { cursor: m.cursor + 1, ..m }, m.last)
    } else {
        (PinModel { cursor: m.cursor + 1, last: m.data[m.cursor as int], ..m }, m.data[m.cursor as int])
    }
}

/// The text of one level in a rendered script: `true,` or `false,`.
pub open spec fn level_text(v: bool) -> Seq<char> {
    if v { "true,"@ } else { "false,"@ }
}

/// The rendered levels of `s`, each followed by a comma.
pub open spec fn levels_text(s: Seq<bool>) -> Seq<char>
    decreases s.len(),
{
    if s.len() == 0 {
        Seq::empty()
    } else {
        levels_text(s.drop_last()) + level_text(s.last())
    }
}

/// The rendered constructor call up to and including the levels of `s`.
pub open spec fn render_prefix(label: Seq<char>, s: Seq<bool>) -> Seq<char> {
    "new(\""@ + label + "\",["@ + levels_text(s)
}

/// Rendering one more level appends its text.
proof fn lemma_levels_text_step(s: Seq<bool>, i: int)
    requires
        0 <= i < s.len(),
    ensures
        levels_text(s.take(i + 1)) == levels_text(s.take(i)) + level_text(s[i]),
{
    assert(s.take(i + 1).drop_last() =~= s.take(i));
}

/// The constructor call that rebuilds an enforcing pin named `label` with script `s`.
pub open spec fn constructor_text(label: Seq<char>, s: Seq<bool>) -> Seq<char> {
    render_prefix(label, s) + "].to_vec());"@
}

impl View for DigitalIOMock {
    type V = PinModel;

    closed spec fn view(&self) -> PinModel {
        PinModel {
            label: self.name@,
            data: self.data@,
            last: self.last,
            cursor: self.count as nat,
            enforce: self.enforce,
        }
    }
}

impl DigitalIOMock {
    /// A pin in enforcing mode: operations must follow the script `l` in order.
    pub fn new(name: &'static str, l: Vec<bool>) -> (r: Self)
        ensures
            r@ == enforcing_model(name@, l@),
    {
        DigitalIOMock { name, data: l, last: false, count: 0, enforce: true }
    }

    /// A pin in monitor mode: every level written is recorded, to be rendered
    /// later with `print`.
    pub fn monitor(name: &'static str) -> (r: Self)
        ensures
            r@ == monitor_model(name@),
    {
        DigitalIOMock { name, data: Vec::new(), last: false, count: 0, enforce: false }
    }

    /// Counts one more operation and returns how many have been made.
    fn inc(&mut self) -> (r: usize)
        requires
            old(self).count < usize::MAX,
        ensures
            r == old(self).count + 1,
            *final(self) == (DigitalIOMock { count: r, ..*old(self) }),
    {
        self.count = self.count + 1;
        self.count
    }

    /// Writes level `v`. In monitor mode `v` is recorded; in enforcing mode it is
    /// checked against the next value of the script.
    fn write_level(&mut self, v: bool) -> (r: Result<(), PinError>)
        requires
            old(self)@.enforce ==> old(self)@.cursor < usize::MAX,
        ensures
            (final(self)@, r) == write_step(old(self)@, v),
    {
        if self.enforce {
            let num = self.inc();
            if num > self.data.len() {
                return Err(PinError::Exhausted { consumed: num - 1 });
            }
            let expected = self.data[num - 1];
            if expected != v {
                return Err(PinError::Mismatch { expected, index: num });
            }
            Ok(())
        } else {
            self.data.push(v);
            Ok(())
        }
    }

    /// Drives the pin low. On an enforcing pin the script must expect `false` next.
    pub fn set_low(&mut self) -> (r: Result<(), PinError>)
        requires
            old(self)@.enforce ==> old(self)@.cursor < usize::MAX,
        ensures
            (final(self)@, r) == write_step(old(self)@, false),
            old(self)@.enforce && !old(self)@.exhausted() && old(self)@.data[old(self)@.cursor as int]
                ==> r == Err::<(), PinError>(
                PinError::Mismatch { expected: true, index: (old(self)@.cursor + 1) as usize },
            ),
    {
        self.write_level(false)
    }

    /// Drives the pin high. On an enforcing pin the script must expect `true` next.
    pub fn set_high(&mut self) -> (r: Result<(), PinError>)
        requires
            old(self)@.enforce ==> old(self)@.cursor < usize::MAX,
        ensures
            (final(self)@, r) == write_step(old(self)@, true),
            old(self)@.enforce && !old(self)@.exhausted() && !old(self)@.data[old(self)@.cursor as int]
                ==> r == Err::<(), PinError>(
                PinError::Mismatch { expected: false, index: (old(self)@.cursor + 1) as usize },
            ),
    {
        self.write_level(true)
    }

    /// Reads the next value of the data: true when the pin is high. Every read
    /// advances the cursor; once the data is used up, the value of the last
    /// successful read is returned again.
    pub fn is_high(&mut self) -> (r: bool)
        requires
            old(self)@.cursor < usize::MAX,
        ensures
            (final(self)@, r) == read_step(old(self)@),
            final(self)@.cursor == old(self)@.cursor + 1,
    {
        let num = self.inc();
        if num > self.data.len() {
            return self.last;
        }
        let v = self.data[num - 1];
        self.last = v;
        v
    }

    /// The negation of `is_high`, consuming a value of the data in the same way.
    pub fn is_low(&mut self) -> (r: bool)
        requires
            old(self)@.cursor < usize::MAX,
        ensures
            final(self)@ == read_step(old(self)@).0,
            r == !read_step(old(self)@).1,
            final(self)@.cursor == old(self)@.cursor + 1,
    {
        !self.is_high()
    }

    /// Every value of the data has been consumed: a further operation on an
    /// enforcing pin departs from its script.
    pub fn is_exhausted(&self) -> (r: bool)
        ensures
            r == self@.exhausted(),
    {
        self.count >= self.data.len()
    }

    /// The pin checks writes against a script (enforcing mode), rather than
    /// recording them (monitor mode).
    pub fn is_enforcing(&self) -> (r: bool)
        ensures
            r == self@.enforce,
    {
        self.enforce
    }

    /// How many reads and enforced writes have been made.
    pub fn cursor(&self) -> (r: usize)
        ensures
            r == self@.cursor,
    {
        self.count
    }

    /// The script, or in monitor mode the levels recorded so far.
    pub fn recorded(&self) -> (r: &Vec<bool>)
        ensures
            r@ == self@.data,
    {
        &self.data
    }

    /// The constructor call that rebuilds the data of this pin as an enforcing script,
    /// listing each level as `true,` or `false,`.
    pub fn print(&self) -> (r: String)
        ensures
            r@ == constructor_text(self@.label, self@.data),
    {
        let mut s = "new(\"".to_owned();
        s.append(self.name);
        s.append("\",[");
        let mut i: usize = 0;
        while i < self.data.len()
            invariant
                i <= self.data@.len(),
                s@ == render_prefix(self.name@, self.data@.take(i as int)),
            decreases self.data@.len() - i,
        {
            if self.data[i] {
                s.append("true,");
            } else {
                s.append("false,");
            }
            proof {
                lemma_levels_text_step(self.data@, i as int);
            }
            i = i + 1;
        }
        proof {
            assert(self.data@.take(i as int) =~= self.data@);
        }
        s.append("].to_vec());");
        s
    }
}

} // verus!
