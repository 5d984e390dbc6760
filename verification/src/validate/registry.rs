//! The registry of named regular-expression patterns, and the canonical
//! email and phone patterns.
//!
//! The registry maps stable identifiers to pattern strings. It is built
//! once, before any validation runs: registering a fresh identifier with a
//! pattern that compiles succeeds, registering an identifier a second time
//! with the identical pattern is idempotent, and registering it with a
//! different pattern is an error.

use vstd::prelude::*;

verus! {

/// Whether a compiled form of `pattern` matches somewhere in `text`.
///
/// This names the outcome of compiling `pattern` with the regex engine and
/// running it over `text`: a function of the two strings alone. Anchored
/// patterns (`^...$`) therefore match the entire text or not at all.
pub uninterp spec fn regex_match(pattern: Seq<char>, text: Seq<char>) -> bool;

/// Whether `pattern` is a valid regular expression that the engine accepts.
pub uninterp spec fn regex_valid(pattern: Seq<char>) -> bool;

/// Relies on `regex::Regex::new`: whether a pattern compiles depends on the
/// pattern string alone.
#[verifier::external_body]
pub fn pattern_compiles(pattern: &str) -> (r: bool)
    ensures
        r == regex_valid(pattern@),
{
    regex::Regex::new(pattern).is_ok()
}

/// Relies on `regex::Regex::new` and `regex::Regex::is_match`: whether the
/// compiled pattern matches the text depends on the two strings alone, and
/// a pattern the engine rejects matches nothing.
#[verifier::external_body]
pub fn pattern_matches(pattern: &str, text: &str) -> (r: bool)
    ensures
        r == regex_match(pattern@, text@),
        !regex_valid(pattern@) ==> !r,
{
    match regex::Regex::new(pattern) {
        Ok(re) => re.is_match(text),
        Err(_) => false,
    }
}

/// The canonical anchored email pattern.
pub fn email_pattern() -> (r: &'static str)
    ensures
        r@ == spec_email_pattern(),
{
    "^[a-zA-Z0-9_.+-]+@[a-zA-Z0-9-]+\\.[a-zA-Z0-9-.]+$"
}

/// The canonical anchored email pattern as a character sequence.
pub open spec fn spec_email_pattern() -> Seq<char> {
    "^[a-zA-Z0-9_.+-]+@[a-zA-Z0-9-]+\\.[a-zA-Z0-9-.]+$"@
}

/// The canonical anchored US phone pattern.
pub fn phone_pattern() -> (r: &'static str)
    ensures
        r@ == spec_phone_pattern(),
{
    "^(\\+\\d{1,2}\\s)?\\(?\\d{3}\\)?[\\s.-]?\\d{3}[\\s.-]?\\d{4}$"
}

/// The canonical anchored US phone pattern as a character sequence.
pub open spec fn spec_phone_pattern() -> Seq<char> {
    "^(\\+\\d{1,2}\\s)?\\(?\\d{3}\\)?[\\s.-]?\\d{3}[\\s.-]?\\d{4}$"@
}

/// The identifier under which the canonical email pattern is registered.
pub fn email_pattern_id() -> (r: &'static str)
    ensures
        r@ == spec_email_pattern_id(),
{
    "form_regex_email"
}

/// The identifier of the canonical email pattern as a character sequence.
pub open spec fn spec_email_pattern_id() -> Seq<char> {
    "form_regex_email"@
}

/// The identifier under which the canonical US phone pattern is registered.
pub fn phone_pattern_id() -> (r: &'static str)
    ensures
        r@ == spec_phone_pattern_id(),
{
    "form_regex_us_phone"
}

/// The identifier of the canonical US phone pattern as a character
/// sequence.
pub open spec fn spec_phone_pattern_id() -> Seq<char> {
    "form_regex_us_phone"@
}

/// One registry entry: a stable identifier and its pattern string.
#[derive(Debug)]
pub struct RegexEntry {
    pub id: String,
    pub pattern: String,
}

/// The pattern registered under `id`, if any: the first entry whose
/// identifier matches.
pub open spec fn spec_lookup_pattern(entries: Seq<RegexEntry>, id: Seq<char>) -> Option<Seq<char>>
    decreases entries.len(),
{
    if entries.len() == 0 {
        None
    } else if entries[0].id@ == id {
        Some(entries[0].pattern@)
    } else {
        spec_lookup_pattern(entries.drop_first(), id)
    }
}

/// A schema-construction error raised while populating the registry.
#[derive(Debug, PartialEq, Eq, Structural)]
pub enum RegistryError {
    /// The identifier is already registered with a different pattern.
    DuplicateId,
    /// The pattern is not a valid regular expression.
    InvalidPattern,
}

/// The one-time-built table of named patterns. Populated during schema
/// construction, read-only afterwards.
#[derive(Debug)]
pub struct RegexRegistry {
    pub entries: Vec<RegexEntry>,
}

impl View for RegexRegistry {
    type V = Seq<RegexEntry>;

    open spec fn view(&self) -> Seq<RegexEntry> {
        self.entries@
    }
}

impl RegexRegistry {
    /// Identifiers are unique and every registered pattern compiles.
    pub open spec fn wf(&self) -> bool {
        &&& forall|i: int, j: int|
            0 <= i < j < self@.len() ==> (#[trigger] self@[i]).id@ != (#[trigger] self@[j]).id@
        &&& forall|i: int| 0 <= i < self@.len() ==> regex_valid((#[trigger] self@[i]).pattern@)
    }

    /// An empty registry.
    pub fn new() -> (r: RegexRegistry)
        ensures
            r@ == Seq::<RegexEntry>::empty(),
            r.wf(),
    {
        RegexRegistry { entries: Vec::new() }
    }

    /// The pattern registered under `id`, if any.
    pub fn get(&self, id: &str) -> (r: Option<&String>)
        ensures
            match r {
                Some(p) => spec_lookup_pattern(self@, id@) == Some(p@),
                None => spec_lookup_pattern(self@, id@) is None,
            },
    {
        let key = String::from_str(id);
        let n = self.entries.len();
        let mut i: usize = 0;
        proof {
            assert(self@.skip(0) =~= self@);
        }
        while i < n
            invariant
                key@ == id@,
                n == self@.len(),
                0 <= i <= n,
                spec_lookup_pattern(self@, id@) == spec_lookup_pattern(self@.skip(i as int), id@),
            decreases n - i,
        {
            proof {
                lemma_lookup_skip_unfold(self@, id@, i as int);
            }
            if self.entries[i].id.eq(&key) {
                return Some(&self.entries[i].pattern);
            }
            i = i + 1;
        }
        proof {
            assert(self@.skip(n as int) =~= Seq::<RegexEntry>::empty());
        }
        None
    }

    /// Whether any pattern is registered under `id`.
    pub fn contains(&self, id: &str) -> (r: bool)
        ensures
            r == (spec_lookup_pattern(self@, id@) is Some),
    {
        self.get(id).is_some()
    }

    /// Registers `pattern` under `id`. Registering a fresh identifier with
    /// a pattern the engine accepts appends the entry; registering an
    /// identifier again with the identical pattern changes nothing and
    /// succeeds; registering it with a different pattern, or registering a
    /// fresh identifier with an invalid pattern, is refused and changes
    /// nothing.
    pub fn register(&mut self, id: String, pattern: String) -> (r: Result<(), RegistryError>)
        ensures
            match spec_lookup_pattern(old(self)@, id@) {
                Some(existing) => {
                    &&& final(self)@ == old(self)@
                    &&& r == if existing == pattern@ {
                        Ok::<(), RegistryError>(())
                    } else {
                        Err::<(), RegistryError>(RegistryError::DuplicateId)
                    }
                },
                None => {
                    if regex_valid(pattern@) {
                        &&& final(self)@ == old(self)@ + seq![
                            RegexEntry { id: id, pattern: pattern },
                        ]
                        &&& r == Ok::<(), RegistryError>(())
                    } else {
                        &&& final(self)@ == old(self)@
                        &&& r == Err::<(), RegistryError>(RegistryError::InvalidPattern)
                    }
                },
            },
            old(self).wf() ==> final(self).wf(),
            spec_lookup_pattern(final(self)@, id@) == if r is Ok {
                Some(pattern@)
            } else {
                spec_lookup_pattern(old(self)@, id@)
            },
    {
        let existing = self.get(id.as_str());
        match existing {
            Some(p) => {
                let same = p.eq(&pattern);
                if same {
                    Ok(())
                } else {
                    Err(RegistryError::DuplicateId)
                }
            },
            None => {
                if pattern_compiles(pattern.as_str()) {
                    let ghost olds = self@;
                    proof {
                        lemma_lookup_append_missing(
                            olds,
                            id@,
                            RegexEntry { id: id, pattern: pattern },
                        );
                        if self.wf() {
                            lemma_append_fresh_wf(
                                olds,
                                RegexEntry { id: id, pattern: pattern },
                            );
                        }
                    }
                    self.entries.push(RegexEntry { id, pattern });
                    Ok(())
                } else {
                    Err(RegistryError::InvalidPattern)
                }
            },
        }
    }

    /// Registers the canonical email pattern under its well-known
    /// identifier. Idempotent across fields that share the pattern.
    pub fn register_email(&mut self) -> (r: Result<(), RegistryError>)
        ensures
            r == (match spec_lookup_pattern(old(self)@, spec_email_pattern_id()) {
                Some(p) => if p == spec_email_pattern() {
                    Ok::<(), RegistryError>(())
                } else {
                    Err::<(), RegistryError>(RegistryError::DuplicateId)
                },
                None => if regex_valid(spec_email_pattern()) {
                    Ok::<(), RegistryError>(())
                } else {
                    Err::<(), RegistryError>(RegistryError::InvalidPattern)
                },
            }),
            r is Ok ==> spec_lookup_pattern(final(self)@, spec_email_pattern_id()) == Some(
                spec_email_pattern(),
            ),
            r is Ok ==> match spec_lookup_pattern(old(self)@, spec_email_pattern_id()) {
                Some(_) => final(self)@ == old(self)@,
                None => {
                    &&& final(self)@.len() == old(self)@.len() + 1
                    &&& final(self)@.drop_last() == old(self)@
                    &&& final(self)@.last().id@ == spec_email_pattern_id()
                    &&& final(self)@.last().pattern@ == spec_email_pattern()
                },
            },
            r is Err ==> final(self)@ == old(self)@,
            old(self).wf() ==> final(self).wf(),
    {
        let ghost olds = self@;
        let r = self.register(
            String::from_str(email_pattern_id()),
            String::from_str(email_pattern()),
        );
        proof {
            if r is Ok && spec_lookup_pattern(olds, spec_email_pattern_id()) is None {
                assert(self@.drop_last() =~= olds);
            }
        }
        r
    }

    /// Registers the canonical US phone pattern under its well-known
    /// identifier. Idempotent across fields that share the pattern.
    pub fn register_phone(&mut self) -> (r: Result<(), RegistryError>)
        ensures
            r == (match spec_lookup_pattern(old(self)@, spec_phone_pattern_id()) {
                Some(p) => if p == spec_phone_pattern() {
                    Ok::<(), RegistryError>(())
                } else {
                    Err::<(), RegistryError>(RegistryError::DuplicateId)
                },
                None => if regex_valid(spec_phone_pattern()) {
                    Ok::<(), RegistryError>(())
                } else {
                    Err::<(), RegistryError>(RegistryError::InvalidPattern)
                },
            }),
            r is Ok ==> spec_lookup_pattern(final(self)@, spec_phone_pattern_id()) == Some(
                spec_phone_pattern(),
            ),
            r is Ok ==> match spec_lookup_pattern(old(self)@, spec_phone_pattern_id()) {
                Some(_) => final(self)@ == old(self)@,
                None => {
                    &&& final(self)@.len() == old(self)@.len() + 1
                    &&& final(self)@.drop_last() == old(self)@
                    &&& final(self)@.last().id@ == spec_phone_pattern_id()
                    &&& final(self)@.last().pattern@ == spec_phone_pattern()
                },
            },
            r is Err ==> final(self)@ == old(self)@,
            old(self).wf() ==> final(self).wf(),
    {
        let ghost olds = self@;
        let r = self.register(
            String::from_str(phone_pattern_id()),
            String::from_str(phone_pattern()),
        );
        proof {
            if r is Ok && spec_lookup_pattern(olds, spec_phone_pattern_id()) is None {
                assert(self@.drop_last() =~= olds);
            }
        }
        r
    }
}

/// Looking up an identifier after skipping a non-matching prefix entry.
proof fn lemma_lookup_skip_unfold(entries: Seq<RegexEntry>, id: Seq<char>, i: int)
    requires
        0 <= i < entries.len(),
    ensures
        entries.skip(i)[0] == entries[i],
        entries[i].id@ == id ==> spec_lookup_pattern(entries.skip(i), id) == Some(
            entries[i].pattern@,
        ),
        entries[i].id@ != id ==> spec_lookup_pattern(entries.skip(i), id) == spec_lookup_pattern(
            entries.skip(i + 1),
            id,
        ),
{
    assert(entries.skip(i).drop_first() =~= entries.skip(i + 1));
}

/// Appending an entry for a fresh identifier makes lookups of that
/// identifier resolve to its pattern.
proof fn lemma_lookup_append_missing(entries: Seq<RegexEntry>, id: Seq<char>, e: RegexEntry)
    requires
        spec_lookup_pattern(entries, id) is None,
        e.id@ == id,
    ensures
        spec_lookup_pattern(entries + seq![e], id) == Some(e.pattern@),
    decreases entries.len(),
{
    let whole = entries + seq![e];
    if entries.len() == 0 {
        assert(whole =~= seq![e]);
    } else {
        assert(whole[0] == entries[0]);
        assert(whole.drop_first() =~= entries.drop_first() + seq![e]);
        lemma_lookup_append_missing(entries.drop_first(), id, e);
    }
}

/// Appending an entry for a fresh identifier with a valid pattern
/// preserves well-formedness.
proof fn lemma_append_fresh_wf(entries: Seq<RegexEntry>, e: RegexEntry)
    requires
        spec_lookup_pattern(entries, e.id@) is None,
        regex_valid(e.pattern@),
        forall|i: int, j: int|
            0 <= i < j < entries.len() ==> (#[trigger] entries[i]).id@ != (
            #[trigger] entries[j]).id@,
        forall|i: int| 0 <= i < entries.len() ==> regex_valid((#[trigger] entries[i]).pattern@),
    ensures
        forall|i: int, j: int|
            0 <= i < j < (entries + seq![e]).len() ==> (#[trigger] (entries + seq![e])[i]).id@ != (
            #[trigger] (entries + seq![e])[j]).id@,
        forall|i: int|
            0 <= i < (entries + seq![e]).len() ==> regex_valid(
                (#[trigger] (entries + seq![e])[i]).pattern@,
            ),
{
    let whole = entries + seq![e];
    lemma_lookup_none_no_entry(entries, e.id@);
    assert forall|i: int, j: int| 0 <= i < j < whole.len() implies (#[trigger] whole[i]).id@ != (
    #[trigger] whole[j]).id@ by {
        if j < entries.len() {
            assert(entries[i].id@ != entries[j].id@);
        } else {
            assert(whole[j] == e);
            assert(entries[i].id@ != e.id@);
        }
    }
}

/// A lookup that misses means no entry carries the identifier.
proof fn lemma_lookup_none_no_entry(entries: Seq<RegexEntry>, id: Seq<char>)
    requires
        spec_lookup_pattern(entries, id) is None,
    ensures
        forall|i: int| 0 <= i < entries.len() ==> (#[trigger] entries[i]).id@ != id,
    decreases entries.len(),
{
    if entries.len() != 0 {
        lemma_lookup_none_no_entry(entries.drop_first(), id);
        assert(forall|i: int|
            1 <= i < entries.len() ==> entries.drop_first()[i - 1] == (#[trigger] entries[i]));
    }
}

} // verus!
