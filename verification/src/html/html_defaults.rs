//! Default attributes and input types configured per tag and per language
//! type.
//!
//! The defaults come from outside the core (a configuration file read by
//! the surrounding program) as plain key/value pairs. The `types` table
//! maps a language type name (`i32`) to the HTML input type it renders as
//! (`number`); the `tags` table assigns default pair attributes to a tag.

use vstd::prelude::*;

verus! {

/// One mapping from a language type name to an HTML input type.
#[derive(Debug)]
pub struct TypeDefault {
    pub lang_type: String,
    pub input_type: String,
}

/// One default pair attribute for a tag.
#[derive(Debug)]
pub struct TagDefault {
    pub tag: String,
    pub attr: String,
    pub value: String,
}

/// The input type configured for a type name, if any: the first entry
/// that carries it.
pub open spec fn spec_lookup_type(types: Seq<TypeDefault>, name: Seq<char>) -> Option<Seq<char>>
    decreases types.len(),
{
    if types.len() == 0 {
        None
    } else if types[0].lang_type@ == name {
        Some(types[0].input_type@)
    } else {
        spec_lookup_type(types.drop_first(), name)
    }
}

/// Whether a type name is one of the built-in integer types, which render
/// as `number` inputs by default.
pub open spec fn spec_is_integer_type(name: Seq<char>) -> bool {
    ||| name == "i8"@
    ||| name == "i16"@
    ||| name == "i32"@
    ||| name == "i64"@
    ||| name == "i128"@
    ||| name == "isize"@
    ||| name == "u8"@
    ||| name == "u16"@
    ||| name == "u32"@
    ||| name == "u64"@
    ||| name == "u128"@
    ||| name == "usize"@
}

/// The HTML input type for a field of the named language type: the
/// configured default where one exists, otherwise `number` for the
/// built-in integer types and `text` for everything else.
pub open spec fn spec_input_type_for(types: Seq<TypeDefault>, name: Seq<char>) -> Seq<char> {
    match spec_lookup_type(types, name) {
        Some(t) => t,
        None => if spec_is_integer_type(name) {
            "number"@
        } else {
            "text"@
        },
    }
}

/// The configured defaults: per-tag attributes and per-type input types.
#[derive(Debug)]
pub struct HtmlDefaults {
    pub tags: Vec<TagDefault>,
    pub types: Vec<TypeDefault>,
}

impl HtmlDefaults {
    /// Empty defaults.
    pub fn new() -> (r: HtmlDefaults)
        ensures
            r.tags@ == Seq::<TagDefault>::empty(),
            r.types@ == Seq::<TypeDefault>::empty(),
    {
        HtmlDefaults { tags: Vec::new(), types: Vec::new() }
    }

    /// Adds one type-to-input-type mapping. Lookups take the first entry
    /// with a name, so each type is added once.
    pub fn add_type(&mut self, lang_type: String, input_type: String)
        ensures
            final(self).types@ == old(self).types@ + seq![
                TypeDefault { lang_type: lang_type, input_type: input_type },
            ],
            final(self).tags == old(self).tags,
    {
        self.types.push(TypeDefault { lang_type, input_type });
    }

    /// Adds one default pair attribute for a tag.
    pub fn add_tag_attr(&mut self, tag: String, attr: String, value: String)
        ensures
            final(self).tags@ == old(self).tags@ + seq![
                TagDefault { tag: tag, attr: attr, value: value },
            ],
            final(self).types == old(self).types,
    {
        self.tags.push(TagDefault { tag, attr, value });
    }

    /// Whether the named language type has a configured input type.
    pub fn has_input_type(&self, id: &str) -> (r: bool)
        ensures
            r == (spec_lookup_type(self.types@, id@) is Some),
    {
        self.get_input_type(id).is_some()
    }

    /// The configured input type for the named language type, if any.
    pub fn get_input_type(&self, id: &str) -> (r: Option<&String>)
        ensures
            match r {
                Some(t) => spec_lookup_type(self.types@, id@) == Some(t@),
                None => spec_lookup_type(self.types@, id@) is None,
            },
    {
        let key = String::from_str(id);
        let n = self.types.len();
        let mut i: usize = 0;
        proof {
            assert(self.types@.skip(0) =~= self.types@);
        }
        while i < n
            invariant
                key@ == id@,
                n == self.types@.len(),
                0 <= i <= n,
                spec_lookup_type(self.types@, id@) == spec_lookup_type(
                    self.types@.skip(i as int),
                    id@,
                ),
            decreases n - i,
        {
            proof {
                assert(self.types@.skip(i as int)[0] == self.types@[i as int]);
                assert(self.types@.skip(i as int).drop_first() =~= self.types@.skip(i + 1 as int));
            }
            if self.types[i].lang_type.eq(&key) {
                return Some(&self.types[i].input_type);
            }
            i = i + 1;
        }
        proof {
            assert(self.types@.skip(n as int) =~= Seq::<TypeDefault>::empty());
        }
        None
    }

    /// The HTML input type for a field of the named language type: the
    /// configured default where one exists, otherwise `number` for the
    /// built-in integer types and `text` for everything else.
    pub fn input_type_for(&self, lang_type: &str) -> (r: String)
        ensures
            r@ == spec_input_type_for(self.types@, lang_type@),
    {
        match self.get_input_type(lang_type) {
            Some(t) => t.clone(),
            None => {
                if is_integer_type(lang_type) {
                    String::from_str("number")
                } else {
                    String::from_str("text")
                }
            },
        }
    }
}

/// Whether a type name is one of the built-in integer types.
pub fn is_integer_type(name: &str) -> (r: bool)
    ensures
        r == spec_is_integer_type(name@),
{
    str_eq(name, "i8") || str_eq(name, "i16") || str_eq(name, "i32") || str_eq(name, "i64")
        || str_eq(name, "i128") || str_eq(name, "isize") || str_eq(name, "u8") || str_eq(
        name,
        "u16",
    ) || str_eq(name, "u32") || str_eq(name, "u64") || str_eq(name, "u128") || str_eq(
        name,
        "usize",
    )
}

/// Character-for-character equality of two strings.
pub fn str_eq(a: &str, b: &str) -> (r: bool)
    ensures
        r == (a@ == b@),
{
    let la = a.unicode_len();
    let lb = b.unicode_len();
    if la != lb {
        proof {
            assert(a@.len() != b@.len());
        }
        return false;
    }
    let mut i: usize = 0;
    while i < la
        invariant
            la as nat == a@.len(),
            lb as nat == b@.len(),
            la == lb,
            0 <= i <= la,
            forall|k: int| 0 <= k < i ==> a@[k] == b@[k],
        decreases la - i,
    {
        if a.get_char(i) != b.get_char(i) {
            return false;
        }
        i = i + 1;
    }
    proof {
        assert(a@ =~= b@);
    }
    true
}

} // verus!
