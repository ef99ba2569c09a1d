//! What crosses the plugin boundary, modeled as plain values: field metadata
//! for model registration, and the name convention helper.
use vstd::prelude::*;

use crate::text::{push_char, spec_lower_char, lower_char};
use vstd::string::StrSliceExecFns;

verus! {

/// The type tag of a model field, as the plugin interface enumerates them.
#[derive(Copy, Clone, PartialEq, Eq, Structural, Debug)]
pub enum ModelFieldType {
    Unknown,
    U8,
    I8,
    U16,
    I16,
    F32,
    U32,
    I32,
    F64,
    U64,
    I64,
    Bool,
    String,
    Array,
    Enum,
}

/// What a module declares about one model field: the type tag, an optional
/// length, whether the field may be absent, and the values of an enumerated
/// field.
pub struct ModelField {
    pub name: String,
    pub type_id: ModelFieldType,
    pub length: usize,
    pub optional: bool,
    pub enum_values: Vec<String>,
}

/// A registered model: its name, the module that registered it, and its
/// fields in registration order. The entity constructors a module supplies
/// alongside stay with the loader.
pub struct ModelMeta {
    pub origin_module: Option<String>,
    pub name: String,
    pub fields: Vec<ModelField>,
}

impl ModelMeta {
    /// A model with no fields yet.
    pub fn new(name: String) -> (r: ModelMeta)
        ensures
            r.name == name,
            r.origin_module is None,
            r.fields@.len() == 0,
    {
        ModelMeta { origin_module: None, name, fields: Vec::new() }
    }

    /// Appends one field declaration.
    pub fn add_field(&mut self, field: ModelField)
        ensures
            final(self).fields@ == old(self).fields@.push(field),
            final(self).name == old(self).name,
            final(self).origin_module == old(self).origin_module,
    {
        self.fields.push(field);
    }

    /// The model's name.
    pub fn get_name(&self) -> (r: &str)
        ensures
            r@ == self.name@,
    {
        self.name.as_str()
    }

    /// All declared fields, in registration order.
    pub fn get_fields(&self) -> (r: &Vec<ModelField>)
        ensures
            r == self.fields,
    {
        &self.fields
    }
}

/// The camel-to-kebab walk: a character that upper-cases to itself starts a
/// new dash-separated word unless the previous one did too.
pub open spec fn spec_kebab_go(s: Seq<char>, i: int, last_upper: bool) -> Seq<char>
    recommends
        0 <= i <= s.len(),
    decreases s.len() - i,
{
    if i < 0 || i >= s.len() {
        Seq::empty()
    } else {
        let c = s[i];
        if spec_is_upperlike(c) {
            (if last_upper {
                seq![spec_lower_char(c)]
            } else {
                seq!['-', spec_lower_char(c)]
            }) + spec_kebab_go(s, i + 1, true)
        } else {
            seq![c] + spec_kebab_go(s, i + 1, false)
        }
    }
}

/// Does the character ASCII-uppercase to itself? True of capitals and of
/// every character that is not an ASCII lowercase letter.
pub open spec fn spec_is_upperlike(c: char) -> bool {
    !(97 <= c as u32 && c as u32 <= 122)
}

/// The kebab form: the walk's output, with a dash the first character may
/// have produced stripped.
pub open spec fn spec_camel_to_kebab(s: Seq<char>) -> Seq<char> {
    let r = spec_kebab_go(s, 0, false);
    if r.len() > 0 && r[0] == '-' {
        r.drop_first()
    } else {
        r
    }
}

/// Rewrites a camel-case name in kebab case: `MyModelName` becomes
/// `my-model-name`.
pub fn camel_to_kebab(value: &str) -> (r: String)
    ensures
        r@ == spec_camel_to_kebab(value@),
{
    let len = value.unicode_len();
    let mut out = String::new();
    let mut is_last_upper = false;
    let mut i: usize = 0;
    while i < len
        invariant
            i <= len,
            len == value@.len(),
            spec_kebab_go(value@, 0, false) == out@ + spec_kebab_go(
                value@,
                i as int,
                is_last_upper,
            ),
            i == 0 ==> !is_last_upper,
        decreases len - i,
    {
        let c = value.get_char(i);
        let u = c as u32;
        if !(97 <= u && u <= 122) {
            if !is_last_upper {
                push_char(&mut out, '-');
            }
            push_char(&mut out, lower_char(c));
            is_last_upper = true;
        } else {
            push_char(&mut out, c);
            is_last_upper = false;
        }
        i = i + 1;
        proof {
            assert(spec_kebab_go(value@, 0, false) =~= out@ + spec_kebab_go(
                value@,
                i as int,
                is_last_upper,
            ));
        }
    }
    assert(out@ =~= spec_kebab_go(value@, 0, false));
    if out.as_str().unicode_len() > 0 {
        if out.as_str().get_char(0) == '-' {
            let stripped = out.as_str().substring_char(1, out.as_str().unicode_len()).to_owned();
            assert(stripped@ =~= out@.drop_first());
            return stripped;
        }
    }
    out
}

} // verus!
