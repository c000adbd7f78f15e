//! What an interactive session offers for completion: the names that can be
//! completed, and the words that bring each of them up.
use vstd::prelude::*;
use crate::text::{chars_of, same_text};

verus! {

/// The text in lower case, as `str::to_lowercase` of the standard library
/// gives it.
pub uninterp spec fn lowercased(text: Seq<char>) -> Seq<char>;

/// Calls `str::to_lowercase`, which maps each character to its lower-case
/// form as Unicode defines it. The contract only names the result.
#[verifier::external_body]
fn lowercase(text: &str) -> (r: String)
    ensures
        r@ == lowercased(text@),
{
    text.to_lowercase()
}

/// A name that can be completed, with the words that bring it up.
#[derive(Debug, Clone)]
pub struct Completion {
    target: String,
    triggers: Vec<String>,
}

/// A list of strings as a sequence of texts.
pub open spec fn texts(list: Seq<String>) -> Seq<Seq<char>> {
    list.map_values(|s: String| s@)
}

/// A list of string slices as a sequence of texts.
pub open spec fn slices(list: Seq<&str>) -> Seq<Seq<char>> {
    list.map_values(|s: &str| s@)
}

/// Whether one of the words begins with the given text.
pub open spec fn some_begins_with(words: Seq<Seq<char>>, start: Seq<char>) -> bool {
    exists|i: int| 0 <= i < words.len() && start.is_prefix_of(#[trigger] words[i])
}

/// Whether `word` begins with `start`.
fn begins_with(word: &Vec<char>, start: &Vec<char>) -> (r: bool)
    ensures
        r == start@.is_prefix_of(word@),
{
    if start.len() > word.len() {
        return false;
    }
    let mut i: usize = 0;
    while i < start.len()
        invariant
            i <= start@.len() <= word@.len(),
            forall|k: int| 0 <= k < i ==> start@[k] == word@[k],
        decreases start@.len() - i,
    {
        if start[i] != word[i] {
            assert(start@ != word@.subrange(0, start@.len() as int));
            return false;
        }
        i = i + 1;
    }
    true
}

impl Completion {
    /// The name that is completed.
    pub closed spec fn name(&self) -> Seq<char> {
        self.target@
    }

    /// The words that bring the name up.
    pub closed spec fn words(&self) -> Seq<Seq<char>> {
        texts(self.triggers@)
    }

    /// A completion with the given name and words.
    pub fn with_triggers(s: &str, triggers: Vec<&str>) -> (r: Completion)
        ensures
            r.name() == s@,
            r.words() == slices(triggers@),
    {
        let mut owned: Vec<String> = Vec::new();
        let mut i: usize = 0;
        while i < triggers.len()
            invariant
                i <= triggers@.len(),
                owned@.len() == i,
                forall|k: int| 0 <= k < i ==> (#[trigger] owned@[k])@ == triggers@[k]@,
            decreases triggers@.len() - i,
        {
            let word: &str = triggers[i];
            owned.push(word.to_owned());
            i = i + 1;
        }
        Completion { target: s.to_owned(), triggers: owned }
    }

    /// A completion that is brought up by its own name in lower case.
    pub fn from_name(s: &str) -> (r: Completion)
        ensures
            r.name() == s@,
            r.words() == seq![lowercased(s@)],
    {
        let mut triggers: Vec<String> = Vec::new();
        triggers.push(lowercase(s));
        Completion { target: s.to_owned(), triggers }
    }

    /// Whether one of the words begins with `other`.
    pub fn starts_with_lower(&self, other: &str) -> (r: bool)
        ensures
            r == some_begins_with(self.words(), other@),
    {
        let start = chars_of(other);
        let mut i: usize = 0;
        while i < self.triggers.len()
            invariant
                i <= self.triggers@.len(),
                start@ == other@,
                forall|k: int| 0 <= k < i ==> !other@.is_prefix_of(#[trigger] self.words()[k]),
            decreases self.triggers@.len() - i,
        {
            let word = chars_of(self.triggers[i].as_str());
            assert(self.words()[i as int] == word@);
            if begins_with(&word, &start) {
                return true;
            }
            i = i + 1;
        }
        false
    }

    /// The name that is completed.
    pub fn target(&self) -> (r: &str)
        ensures
            r@ == self.name(),
    {
        self.target.as_str()
    }

    /// The words that bring the name up.
    pub fn triggers(&self) -> (r: &Vec<String>)
        ensures
            texts(r@) == self.words(),
    {
        &self.triggers
    }

    /// A copy of the completion.
    pub fn duplicate(&self) -> (r: Completion)
        ensures
            r.name() == self.name(),
            r.words() == self.words(),
    {
        let mut triggers: Vec<String> = Vec::new();
        let mut i: usize = 0;
        while i < self.triggers.len()
            invariant
                i <= self.triggers@.len(),
                triggers@ == self.triggers@.take(i as int),
            decreases self.triggers@.len() - i,
        {
            triggers.push(self.triggers[i].clone());
            i = i + 1;
        }
        Completion { target: self.target.clone(), triggers }
    }
}

/// A completion as its name and its words.
pub type Entry = (Seq<char>, Seq<Seq<char>>);

/// A list of completions as a sequence of names with their words.
pub open spec fn listing(entries: Seq<Completion>) -> Seq<Entry> {
    entries.map_values(|c: Completion| (c.name(), c.words()))
}

/// The entries of which a word begins with `start`, in their order.
pub open spec fn chosen(entries: Seq<Entry>, start: Seq<char>) -> Seq<Entry>
    decreases entries.len(),
{
    if entries.len() == 0 {
        Seq::empty()
    } else {
        let rest = chosen(entries.drop_last(), start);
        if some_begins_with(entries.last().1, start) {
            rest.push(entries.last())
        } else {
            rest
        }
    }
}

/// The completion that a bare name stands for.
pub open spec fn named(name: Seq<char>) -> Entry {
    (name, seq![lowercased(name)])
}

/// The completions that an interactive session offers.
pub struct Helper {
    completions: Vec<Completion>,
}

impl Helper {
    /// The completions, in the order in which they were added.
    pub closed spec fn entries(&self) -> Seq<Entry> {
        listing(self.completions@)
    }

    /// A helper that offers the given names.
    pub fn new(candidates: Vec<&str>) -> (r: Helper)
        ensures
            r.entries() == slices(candidates@).map_values(|name: Seq<char>| named(name)),
    {
        let mut completions: Vec<Completion> = Vec::new();
        let mut i: usize = 0;
        while i < candidates.len()
            invariant
                i <= candidates@.len(),
                completions@.len() == i,
                forall|k: int|
                    0 <= k < i ==> (#[trigger] completions@[k]).name() == candidates@[k]@
                        && completions@[k].words() == seq![lowercased(candidates@[k]@)],
            decreases candidates@.len() - i,
        {
            let name: &str = candidates[i];
            completions.push(Completion::from_name(name));
            i = i + 1;
        }
        Helper { completions }
    }

    /// Adds a completion behind the others.
    pub fn add(&mut self, candidate: Completion)
        ensures
            final(self).entries() == old(self).entries().push(
                (candidate.name(), candidate.words()),
            ),
    {
        self.completions.push(candidate);
    }

    /// The completions, in the order in which they were added.
    pub fn candidates(&self) -> (r: &Vec<Completion>)
        ensures
            listing(r@) == self.entries(),
    {
        &self.completions
    }

    /// The completions of which a word begins with `word`, in their order.
    pub fn matching(&self, word: &str) -> (r: Vec<Completion>)
        ensures
            listing(r@) == chosen(self.entries(), word@),
    {
        let mut found: Vec<Completion> = Vec::new();
        let mut i: usize = 0;
        while i < self.completions.len()
            invariant
                i <= self.completions@.len(),
                listing(found@) == chosen(self.entries().take(i as int), word@),
            decreases self.completions@.len() - i,
        {
            let ghost upto = self.entries().take(i + 1);
            assert(upto.drop_last() =~= self.entries().take(i as int));
            if self.completions[i].starts_with_lower(word) {
                let copy = self.completions[i].duplicate();
                found.push(copy);
            }
            i = i + 1;
        }
        assert(self.entries().take(i as int) =~= self.entries());
        found
    }
}

/// A function that is known under its name alone.
pub open spec fn plain(name: &str) -> Entry {
    (name@, seq![name@])
}

/// A function of a namespace, which is known under its full name and under
/// its short one.
pub open spec fn scoped(name: &str, short: &str) -> Entry {
    (name@, seq![name@, short@])
}

/// The functions that the expression language brings along.
pub open spec fn built_in() -> Seq<Entry> {
    seq![
        plain("min"),
        plain("max"),
        plain("len"),
        plain("floor"),
        plain("round"),
        plain("ceil"),
        plain("if"),
        plain("typeof"),
        scoped("math::is_nan", "is_nan"),
        scoped("math::is_finite", "is_finite"),
        scoped("math::is_infinite", "is_infinite"),
        scoped("math::is_normal", "is_normal"),
        scoped("math::ln", "ln"),
        scoped("math::log", "log"),
        scoped("math::log2", "log2"),
        scoped("math::log10", "log10"),
        scoped("math::exp", "exp"),
        scoped("math::exp2", "exp2"),
        scoped("math::pow", "pow"),
        scoped("math::cos", "cos"),
        scoped("math::acos", "acos"),
        scoped("math::cosh", "cosh"),
        scoped("math::acosh", "acosh"),
        scoped("math::sin", "sin"),
        scoped("math::asin", "asin"),
        scoped("math::sinh", "sinh"),
        scoped("math::asinh", "asinh"),
        scoped("math::tan", "tan"),
        scoped("math::atan", "atan"),
        scoped("math::atan2", "atan2"),
        scoped("math::tanh", "tanh"),
        scoped("math::atanh", "atanh"),
        scoped("math::sqrt", "sqrt"),
        scoped("math::cbrt", "cbrt"),
        scoped("math::hypot", "hypot"),
        scoped("str::regex_matches", "regex_matches"),
        scoped("str::regex_replace", "regex_replace"),
        scoped("str::to_lowercase", "to_lowercase"),
        scoped("str::to_uppercase", "to_uppercase"),
        scoped("str::trim", "trim"),
        scoped("str::from", "from"),
        plain("bitand"),
        plain("bitor"),
        plain("bitxor"),
        plain("bitnot"),
        plain("shl"),
        plain("shr"),
        plain("random"),
    ]
}

/// Adds a function that is known under its name alone.
fn add_plain(helper: &mut Helper, name: &'static str)
    ensures
        final(helper).entries() == old(helper).entries().push(plain(name)),
{
    let mut triggers: Vec<&str> = Vec::new();
    triggers.push(name);
    assert(slices(triggers@) =~= seq![name@]);
    helper.add(Completion::with_triggers(name, triggers));
}

/// Adds a function of a namespace.
fn add_scoped(helper: &mut Helper, name: &'static str, short: &'static str)
    ensures
        final(helper).entries() == old(helper).entries().push(scoped(name, short)),
{
    let mut triggers: Vec<&str> = Vec::new();
    triggers.push(name);
    triggers.push(short);
    assert(slices(triggers@) =~= seq![name@, short@]);
    helper.add(Completion::with_triggers(name, triggers));
}

/// Adds the functions that the expression language brings along.
pub fn add_built_in_fn(helper: &mut Helper)
    ensures
        final(helper).entries() == old(helper).entries() + built_in(),
{
    add_plain(helper, "min");
    add_plain(helper, "max");
    add_plain(helper, "len");
    add_plain(helper, "floor");
    add_plain(helper, "round");
    add_plain(helper, "ceil");
    add_plain(helper, "if");
    add_plain(helper, "typeof");
    add_scoped(helper, "math::is_nan", "is_nan");
    add_scoped(helper, "math::is_finite", "is_finite");
    add_scoped(helper, "math::is_infinite", "is_infinite");
    add_scoped(helper, "math::is_normal", "is_normal");
    add_scoped(helper, "math::ln", "ln");
    add_scoped(helper, "math::log", "log");
    add_scoped(helper, "math::log2", "log2");
    add_scoped(helper, "math::log10", "log10");
    add_scoped(helper, "math::exp", "exp");
    add_scoped(helper, "math::exp2", "exp2");
    add_scoped(helper, "math::pow", "pow");
    add_scoped(helper, "math::cos", "cos");
    add_scoped(helper, "math::acos", "acos");
    add_scoped(helper, "math::cosh", "cosh");
    add_scoped(helper, "math::acosh", "acosh");
    add_scoped(helper, "math::sin", "sin");
    add_scoped(helper, "math::asin", "asin");
    add_scoped(helper, "math::sinh", "sinh");
    add_scoped(helper, "math::asinh", "asinh");
    add_scoped(helper, "math::tan", "tan");
    add_scoped(helper, "math::atan", "atan");
    add_scoped(helper, "math::atan2", "atan2");
    add_scoped(helper, "math::tanh", "tanh");
    add_scoped(helper, "math::atanh", "atanh");
    add_scoped(helper, "math::sqrt", "sqrt");
    add_scoped(helper, "math::cbrt", "cbrt");
    add_scoped(helper, "math::hypot", "hypot");
    add_scoped(helper, "str::regex_matches", "regex_matches");
    add_scoped(helper, "str::regex_replace", "regex_replace");
    add_scoped(helper, "str::to_lowercase", "to_lowercase");
    add_scoped(helper, "str::to_uppercase", "to_uppercase");
    add_scoped(helper, "str::trim", "trim");
    add_scoped(helper, "str::from", "from");
    add_plain(helper, "bitand");
    add_plain(helper, "bitor");
    add_plain(helper, "bitxor");
    add_plain(helper, "bitnot");
    add_plain(helper, "shl");
    add_plain(helper, "shr");
    add_plain(helper, "random");
}

/// The text without the white space at its two ends, as `str::trim` of the
/// standard library gives it.
pub uninterp spec fn trimmed(text: Seq<char>) -> Seq<char>;

/// Calls `str::trim`, which removes leading and trailing white space as
/// Unicode defines it. The contract only names the result.
#[verifier::external_body]
fn trim(text: &str) -> (r: String)
    ensures
        r@ == trimmed(text@),
{
    text.trim().to_owned()
}

/// What a line of a session asks for.
#[derive(Debug, Clone, Copy, PartialEq, Eq, Structural)]
pub enum Command {
    /// Leave the session.
    Exit,
    /// Show how many results the session remembers.
    MemoryLength,
    /// Show the results that the session remembers.
    MemoryValues,
    /// Switch the echo of the rewritten input on or off.
    Echo,
    /// Anything else: a setting or an expression.
    Evaluate,
}

/// What a word asks for: it is one of the four words of a session, or else
/// an evaluation.
pub open spec fn command_named(word: Seq<char>) -> Command {
    if word == "exit"@ {
        Command::Exit
    } else if word == "_memlen"@ {
        Command::MemoryLength
    } else if word == "_memval"@ {
        Command::MemoryValues
    } else if word == "_echo"@ {
        Command::Echo
    } else {
        Command::Evaluate
    }
}

/// What a line asks for: what it asks for without the white space at its
/// two ends.
pub open spec fn command(line: Seq<char>) -> Command {
    command_named(trimmed(line))
}

/// What a word asks for.
pub fn classify(word: &str) -> (r: Command)
    ensures
        r == command_named(word@),
{
    if same_text(word, "exit") {
        Command::Exit
    } else if same_text(word, "_memlen") {
        Command::MemoryLength
    } else if same_text(word, "_memval") {
        Command::MemoryValues
    } else if same_text(word, "_echo") {
        Command::Echo
    } else {
        Command::Evaluate
    }
}

/// What a line asks for.
pub fn command_of(line: &str) -> (r: Command)
    ensures
        r == command(line@),
{
    let word = trim(line);
    classify(word.as_str())
}

/// Why a reference to a remembered result names none.
#[derive(Debug, Clone, Copy, PartialEq, Eq, Structural)]
pub enum SlotError {
    /// Nothing is remembered yet.
    Empty,
    /// The number is outside the range, which begins at `first` and is
    /// reported up to `len`.
    OutOfRange { first: usize, len: usize },
}

/// The position of the result that a reference names, among `len` results.
/// A reference counts from the oldest result, beginning with 0, or, with a
/// minus sign, from the newest, beginning with 1.
pub open spec fn slot(len: usize, index: usize, from_end: bool) -> Result<usize, SlotError> {
    if len == 0 {
        Err(SlotError::Empty)
    } else if from_end {
        if index > len || index == 0 {
            Err(SlotError::OutOfRange { first: 1, len })
        } else {
            Ok((len - index) as usize)
        }
    } else if index >= len {
        Err(SlotError::OutOfRange { first: 0, len })
    } else {
        Ok(index)
    }
}

/// The position of the result that a reference names.
pub fn memory_slot(len: usize, index: usize, from_end: bool) -> (r: Result<usize, SlotError>)
    ensures
        r == slot(len, index, from_end),
{
    if len == 0 {
        return Err(SlotError::Empty);
    }
    if from_end {
        if index > len || index == 0 {
            Err(SlotError::OutOfRange { first: 1, len })
        } else {
            Ok(len - index)
        }
    } else if index >= len {
        Err(SlotError::OutOfRange { first: 0, len })
    } else {
        Ok(index)
    }
}

/// Whether integers can be shown in the base: it is from 2 to 36.
pub fn valid_base(base: u32) -> (r: bool)
    ensures
        r == (2 <= base <= 36),
{
    !(base < 2 || base > 36)
}

} // verus!
