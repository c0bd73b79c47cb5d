//! The usage decoder and renderer: the same field-traversal protocol as the
//! value decoder, collecting one descriptor per field instead of consuming
//! tokens, and the pure renderer that turns the ordered descriptor list into
//! formatted text.

use vstd::prelude::*;
use vstd::string::StringExecFns;

use crate::alias_lookup;
use crate::no_field_message;
use crate::spec_no_field_message;
use crate::util::canonical_field_name;
use crate::util::push_char;
use crate::util::spec_canonical_name;
use crate::ConfigView;
use crate::Decoder;
use crate::FlagConfig;
use crate::FlagConfiguration;
use crate::Flags;
use crate::HammerError;
use crate::HammerResult;

verus! {

/// The mathematical content of one field descriptor.
pub struct FieldUsageView {
    pub canonical: Seq<char>,
    pub alias: Option<char>,
    pub optional: bool,
}

/// Usage metadata for one field: its canonical long name, an optional alias
/// character, and whether the field is optional.
pub struct FieldUsage {
    canonical: String,
    alias: Option<char>,
    optional: bool,
}

impl View for FieldUsage {
    type V = FieldUsageView;

    closed spec fn view(&self) -> FieldUsageView {
        FieldUsageView { canonical: self.canonical@, alias: self.alias, optional: self.optional }
    }
}

impl Clone for FieldUsage {
    fn clone(&self) -> (r: Self)
        ensures
            r@ == self@,
    {
        FieldUsage {
            canonical: self.canonical.clone(),
            alias: self.alias,
            optional: self.optional,
        }
    }
}

impl FieldUsage {
    /// A fresh descriptor for the given canonical name: no alias, mandatory.
    pub fn new(canonical: &str) -> (r: FieldUsage)
        ensures
            r@ == (FieldUsageView { canonical: canonical@, alias: None, optional: false }),
    {
        FieldUsage { canonical: String::from_str(canonical), alias: None, optional: false }
    }

    /// Records an alias character for the field.
    pub fn alias(&mut self, alias: char)
        ensures
            final(self)@ == (FieldUsageView { alias: Some(alias), ..old(self)@ }),
    {
        self.alias = Some(alias);
    }

    /// Marks the field optional.
    pub fn optional(&mut self)
        ensures
            final(self)@ == (FieldUsageView { optional: true, ..old(self)@ }),
    {
        self.optional = true;
    }
}

/// The element-wise views of a descriptor list.
pub open spec fn views_of(fields: Seq<FieldUsage>) -> Seq<FieldUsageView> {
    fields.map_values(|f: FieldUsage| f@)
}

/// The mathematical content of a usage pass.
pub struct UsageView {
    pub config: ConfigView,
    pub current_field: Option<FieldUsageView>,
    pub fields: Seq<FieldUsageView>,
}

/// The stateless-per-run usage engine: conforms to the same traversal
/// protocol as the value decoder, but touches no token sequence; each field
/// visit records a descriptor instead.
pub struct UsageDecoder {
    config: FlagConfiguration,
    current_field: Option<FieldUsage>,
    fields: Vec<FieldUsage>,
}

impl View for UsageDecoder {
    type V = UsageView;

    closed spec fn view(&self) -> UsageView {
        UsageView {
            config: self.config@,
            current_field: match self.current_field {
                Some(f) => Some(f@),
                None => None,
            },
            fields: views_of(self.fields@),
        }
    }
}

impl UsageDecoder {
    /// A fresh usage decoder, configured as the record type `T` directs.
    pub fn new<T: FlagConfig>() -> (d: UsageDecoder)
        ensures
            d@.current_field is None,
            d@.fields == Seq::<FieldUsageView>::empty(),
    {
        UsageDecoder::with_config(T::config(FlagConfiguration::new()))
    }

    /// A fresh usage decoder, with the configuration passed in explicitly.
    pub fn with_config(config: FlagConfiguration) -> (d: UsageDecoder)
        ensures
            d@.config == config@,
            d@.current_field is None,
            d@.fields == Seq::<FieldUsageView>::empty(),
    {
        let d = UsageDecoder { config, current_field: None, fields: Vec::new() };
        proof {
            assert(d@.fields =~= Seq::<FieldUsageView>::empty());
        }
        d
    }

    /// Marks the pending descriptor optional.
    fn optional(&mut self)
        requires
            old(self)@.current_field is Some,
        ensures
            final(self)@ == (UsageView {
                current_field: Some(
                    FieldUsageView { optional: true, ..old(self)@.current_field->0 },
                ),
                ..old(self)@
            }),
    {
        match self.current_field.take() {
            Some(mut f) => {
                f.optional();
                self.current_field = Some(f);
            },
            None => {},
        }
    }

    /// Finalizes the pending descriptor: pushes it onto the ordered list.
    fn field(&mut self)
        requires
            old(self)@.current_field is Some,
        ensures
            final(self)@ == (UsageView {
                current_field: None,
                fields: old(self)@.fields.push(old(self)@.current_field->0),
                ..old(self)@
            }),
    {
        match self.current_field.take() {
            Some(f) => {
                let ghost pre = self.fields@;
                self.fields.push(f);
                proof {
                    assert(views_of(self.fields@) =~= views_of(pre).push(old(
                        self,
                    )@.current_field->0));
                }
            },
            None => {},
        }
    }

    /// Opens a descriptor for the named field: canonical long name from the
    /// resolver's naming rule, alias from the configuration, mandatory until
    /// an optional read says otherwise.
    pub fn read_struct_field(&mut self, f_name: &str) -> (r: HammerResult<()>)
        ensures
            r is Ok,
            final(self)@ == (UsageView {
                current_field: Some(
                    FieldUsageView {
                        canonical: spec_canonical_name(f_name@),
                        alias: alias_lookup(old(self)@.config.aliases, f_name@),
                        optional: false,
                    },
                ),
                ..old(self)@
            }),
    {
        let name = canonical_field_name(f_name);
        let mut field = FieldUsage::new(name.as_str());
        match self.config.short_for(f_name) {
            Some(short) => field.alias(short),
            None => {},
        }
        self.current_field = Some(field);
        Ok(())
    }

    /// A boolean field is optional by default: its descriptor is marked
    /// optional and finalized at once.
    pub fn read_bool(&mut self) -> (r: HammerResult<bool>)
        ensures
            (old(self)@.current_field is None ==> (r matches Err(e) && e.message@
                == spec_no_field_message()) && final(self)@ == old(self)@),
            (old(self)@.current_field matches Some(f) ==> r == Ok::<bool, HammerError>(false)
                && final(self)@ == (UsageView {
                current_field: None,
                fields: old(self)@.fields.push(FieldUsageView { optional: true, ..f }),
                ..old(self)@
            })),
    {
        if self.current_field.is_none() {
            return HammerError::new(no_field_message());
        }
        self.optional();
        self.field();
        Ok(false)
    }

    /// A string field finalizes its descriptor as it stands.
    pub fn read_str(&mut self) -> (r: HammerResult<String>)
        ensures
            (old(self)@.current_field is None ==> (r matches Err(e) && e.message@
                == spec_no_field_message()) && final(self)@ == old(self)@),
            (old(self)@.current_field matches Some(f) ==> r matches Ok(s) && s@ == Seq::<
                char,
            >::empty() && final(self)@ == (UsageView {
                current_field: None,
                fields: old(self)@.fields.push(f),
                ..old(self)@
            })),
    {
        if self.current_field.is_none() {
            return HammerError::new(no_field_message());
        }
        self.field();
        Ok(String::new())
    }

    /// A character field finalizes its descriptor as it stands.
    pub fn read_char(&mut self) -> (r: HammerResult<char>)
        ensures
            (old(self)@.current_field is None ==> (r matches Err(e) && e.message@
                == spec_no_field_message()) && final(self)@ == old(self)@),
            (old(self)@.current_field matches Some(f) ==> r == Ok::<char, HammerError>('\u{0}')
                && final(self)@ == (UsageView {
                current_field: None,
                fields: old(self)@.fields.push(f),
                ..old(self)@
            })),
    {
        if self.current_field.is_none() {
            return HammerError::new(no_field_message());
        }
        self.field();
        Ok('\u{0}')
    }

    /// An optional field is marked optional, then the inner read finalizes
    /// it; the traversal is told the value is present so that it recurses.
    pub fn read_option(&mut self) -> (r: HammerResult<bool>)
        ensures
            (old(self)@.current_field is None ==> (r matches Err(e) && e.message@
                == spec_no_field_message()) && final(self)@ == old(self)@),
            (old(self)@.current_field matches Some(f) ==> r == Ok::<bool, HammerError>(true)
                && final(self)@ == (UsageView {
                current_field: Some(FieldUsageView { optional: true, ..f }),
                ..old(self)@
            })),
    {
        if self.current_field.is_none() {
            return HammerError::new(no_field_message());
        }
        self.optional();
        Ok(true)
    }

    /// Usage text is not generated for integer fields.
    pub fn read_uint(&mut self) -> (r: HammerResult<u64>)
        ensures
            final(self)@ == old(self)@,
            r matches Err(e) && e.message@ == spec_usage_unsupported_message(),
    {
        HammerError::new(usage_unsupported_message())
    }

    /// A sequence read finalizes no descriptor: the rest field, whatever its
    /// configured name, has no fixed usage text of its own, so the pending
    /// descriptor is discarded and no element is emitted.
    pub fn read_seq(&mut self) -> (r: HammerResult<Vec<String>>)
        ensures
            final(self)@ == (UsageView { current_field: None, ..old(self)@ }),
            r matches Ok(v) && v@.len() == 0,
    {
        self.current_field = None;
        Ok(Vec::new())
    }
}

/// The message reported when usage text is requested for a field shape that
/// has none.
pub open spec fn spec_usage_unsupported_message() -> Seq<char> {
    "usage is not supported for integer fields"@
}

/// Builds the unsupported-shape message of the usage pass.
pub fn usage_unsupported_message() -> (r: String)
    ensures
        r@ == spec_usage_unsupported_message(),
{
    String::from_str("usage is not supported for integer fields")
}

/// The descriptors of one group: those whose optionality matches.
pub open spec fn spec_group(fields: Seq<FieldUsageView>, optional: bool) -> Seq<FieldUsageView>
    decreases fields.len(),
{
    if fields.len() == 0 {
        fields
    } else {
        let rest = spec_group(fields.drop_last(), optional);
        if fields.last().optional == optional {
            rest.push(fields.last())
        } else {
            rest
        }
    }
}

/// One rendered line: the alias prefix `-<a>, ` or the indent, then the long
/// form (wrapped in brackets for optional entries), then a newline.
pub open spec fn spec_field_line(f: FieldUsageView, indent: Seq<char>, brackets: bool) -> Seq<
    char,
> {
    let shorthand = match f.alias {
        Some(a) => seq!['-', a] + ", "@,
        None => indent,
    };
    let longhand = if brackets {
        "["@ + f.canonical + "]"@
    } else {
        f.canonical
    };
    shorthand + longhand + "\n"@
}

/// The rendered text of a descriptor group: one line per descriptor, in
/// order.
pub open spec fn spec_fields_text(
    fields: Seq<FieldUsageView>,
    indent: Seq<char>,
    brackets: bool,
) -> Seq<char>
    decreases fields.len(),
{
    if fields.len() == 0 {
        Seq::empty()
    } else {
        spec_fields_text(fields.drop_last(), indent, brackets) + spec_field_line(
            fields.last(),
            indent,
            brackets,
        )
    }
}

/// Whether any descriptor carries an alias.
pub open spec fn spec_any_alias(fields: Seq<FieldUsageView>) -> bool {
    exists|i: int| 0 <= i < fields.len() && fields[i].alias is Some
}

/// The indent of non-aliased lines: four spaces when an alias column exists
/// or indentation is forced, empty otherwise.
pub open spec fn spec_indent(fields: Seq<FieldUsageView>, force_indent: bool) -> Seq<char> {
    if force_indent || spec_any_alias(fields) {
        "    "@
    } else {
        ""@
    }
}

/// The rendered usage text: the mandatory group first, then the optional
/// group wrapped in brackets, order preserved within each group.
pub open spec fn spec_usage_text(fields: Seq<FieldUsageView>, force_indent: bool) -> Seq<char> {
    let indent = spec_indent(fields, force_indent);
    spec_fields_text(spec_group(fields, false), indent, false) + spec_fields_text(
        spec_group(fields, true),
        indent,
        true,
    )
}

/// Renders one group of descriptors, one line each: aliased entries are
/// prefixed with `-<a>, `, the others with the indent; `brackets` wraps each
/// long form in `[...]`.
pub fn print_fields(fields: &Vec<FieldUsage>, indent: &str, brackets: bool) -> (r: String)
    ensures
        r@ == spec_fields_text(views_of(fields@), indent@, brackets),
{
    let mut out = String::new();
    let n: usize = fields.len();
    for i in 0..n
        invariant
            n == fields@.len(),
            out@ == spec_fields_text(views_of(fields@).subrange(0, i as int), indent@, brackets),
    {
        let f = &fields[i];
        match &f.alias {
            Some(a) => {
                push_char(&mut out, '-');
                push_char(&mut out, *a);
                out.append(", ");
            },
            None => {
                out.append(indent);
            },
        }
        if brackets {
            out.append("[");
            out.append(f.canonical.as_str());
            out.append("]");
        } else {
            out.append(f.canonical.as_str());
        }
        out.append("\n");
        proof {
            let views = views_of(fields@);
            assert(views.subrange(0, i + 1).drop_last() =~= views.subrange(0, i as int));
            assert(views.subrange(0, i + 1).last() == views[i as int]);
            assert(out@ =~= spec_fields_text(views.subrange(0, i as int), indent@, brackets)
                + spec_field_line(views[i as int], indent@, brackets));
        }
    }
    proof {
        assert(views_of(fields@).subrange(0, n as int) =~= views_of(fields@));
    }
    out
}

/// Renders the full usage text from the ordered descriptor list: mandatory
/// entries first, then optional entries wrapped in brackets; non-aliased
/// lines are indented to align whenever any entry carries an alias, or when
/// indentation is forced.
pub fn print_usage(fields: &Vec<FieldUsage>, force_indent: bool) -> (r: String)
    ensures
        r@ == spec_usage_text(views_of(fields@), force_indent),
{
    let n: usize = fields.len();
    let mut shorthands = false;
    for i in 0..n
        invariant
            n == fields@.len(),
            shorthands == spec_any_alias(views_of(fields@).subrange(0, i as int)),
    {
        let has = match &fields[i].alias {
            Some(_) => true,
            None => false,
        };
        proof {
            let views = views_of(fields@);
            if has {
                assert(views.subrange(0, i + 1)[i as int].alias is Some);
            } else if shorthands {
                let k = choose|k: int|
                    0 <= k < i && (#[trigger] views.subrange(0, i as int)[k]).alias is Some;
                assert(views.subrange(0, i + 1)[k] == views[k]);
                assert(views.subrange(0, i as int)[k] == views[k]);
            } else {
                assert forall|k: int| 0 <= k < i + 1 implies !(#[trigger] views.subrange(
                    0,
                    i + 1,
                )[k].alias is Some) by {
                    assert(views.subrange(0, i + 1)[k] == views[k]);
                    if k < i {
                        assert(views.subrange(0, i as int)[k] == views[k]);
                    }
                }
            }
        }
        if has {
            shorthands = true;
        }
    }
    proof {
        assert(views_of(fields@).subrange(0, n as int) =~= views_of(fields@));
    }
    let indent: &str = if force_indent || shorthands {
        "    "
    } else {
        ""
    };
    let mut mandatory: Vec<FieldUsage> = Vec::new();
    let mut optional: Vec<FieldUsage> = Vec::new();
    for i in 0..n
        invariant
            n == fields@.len(),
            views_of(mandatory@) == spec_group(views_of(fields@).subrange(0, i as int), false),
            views_of(optional@) == spec_group(views_of(fields@).subrange(0, i as int), true),
    {
        let f = &fields[i];
        let ghost views = views_of(fields@);
        let ghost pre_m = mandatory@;
        let ghost pre_o = optional@;
        if f.optional {
            optional.push(f.clone());
        } else {
            mandatory.push(f.clone());
        }
        proof {
            assert(views.subrange(0, i + 1).drop_last() =~= views.subrange(0, i as int));
            assert(views.subrange(0, i + 1).last() == views[i as int]);
            if f.optional {
                assert(views_of(optional@) =~= views_of(pre_o).push(views[i as int]));
                assert(views_of(mandatory@) == views_of(pre_m));
            } else {
                assert(views_of(mandatory@) =~= views_of(pre_m).push(views[i as int]));
                assert(views_of(optional@) == views_of(pre_o));
            }
        }
    }
    proof {
        assert(views_of(fields@).subrange(0, n as int) =~= views_of(fields@));
    }
    let mut out = print_fields(&mandatory, indent, false);
    let second = print_fields(&optional, indent, true);
    out.append(second.as_str());
    out
}

impl Decoder for UsageDecoder {
    fn read_struct_field(&mut self, f_name: &str) -> HammerResult<()> {
        UsageDecoder::read_struct_field(self, f_name)
    }

    fn read_bool(&mut self) -> HammerResult<bool> {
        UsageDecoder::read_bool(self)
    }

    fn read_uint(&mut self) -> HammerResult<u64> {
        UsageDecoder::read_uint(self)
    }

    fn read_u64(&mut self) -> HammerResult<u64> {
        UsageDecoder::read_uint(self)
    }

    fn read_u32(&mut self) -> HammerResult<u32> {
        match UsageDecoder::read_uint(self) {
            Ok(v) => Ok(#[verifier::truncate] (v as u32)),
            Err(e) => Err(e),
        }
    }

    fn read_u16(&mut self) -> HammerResult<u16> {
        match UsageDecoder::read_uint(self) {
            Ok(v) => Ok(#[verifier::truncate] (v as u16)),
            Err(e) => Err(e),
        }
    }

    fn read_u8(&mut self) -> HammerResult<u8> {
        match UsageDecoder::read_uint(self) {
            Ok(v) => Ok(#[verifier::truncate] (v as u8)),
            Err(e) => Err(e),
        }
    }

    fn read_int(&mut self) -> HammerResult<i64> {
        match UsageDecoder::read_uint(self) {
            Ok(v) => Ok(#[verifier::truncate] (v as i64)),
            Err(e) => Err(e),
        }
    }

    fn read_i64(&mut self) -> HammerResult<i64> {
        match UsageDecoder::read_uint(self) {
            Ok(v) => Ok(#[verifier::truncate] (v as i64)),
            Err(e) => Err(e),
        }
    }

    fn read_i32(&mut self) -> HammerResult<i32> {
        match UsageDecoder::read_uint(self) {
            Ok(v) => Ok(#[verifier::truncate] (v as i32)),
            Err(e) => Err(e),
        }
    }

    fn read_i16(&mut self) -> HammerResult<i16> {
        match UsageDecoder::read_uint(self) {
            Ok(v) => Ok(#[verifier::truncate] (v as i16)),
            Err(e) => Err(e),
        }
    }

    fn read_i8(&mut self) -> HammerResult<i8> {
        match UsageDecoder::read_uint(self) {
            Ok(v) => Ok(#[verifier::truncate] (v as i8)),
            Err(e) => Err(e),
        }
    }

    fn read_char(&mut self) -> HammerResult<char> {
        UsageDecoder::read_char(self)
    }

    fn read_str(&mut self) -> HammerResult<String> {
        UsageDecoder::read_str(self)
    }

    fn read_option(&mut self) -> HammerResult<bool> {
        UsageDecoder::read_option(self)
    }

    fn read_seq(&mut self) -> HammerResult<Vec<String>> {
        UsageDecoder::read_seq(self)
    }
}

/// Runs a usage pass for the record type `T` and renders what it collected:
/// the ordered descriptor list becomes the formatted option summary (see
/// [`print_usage`] for its exact shape), returned beside the configuration's
/// description text.
pub fn usage<T: Flags>(force_indent: bool) -> (Option<String>, String) {
    let mut decoder = UsageDecoder::new::<T>();
    let _ = T::decode(&mut decoder);
    let desc = decoder.config.description();
    let text = print_usage(&decoder.fields, force_indent);
    (desc, text)
}

} // verus!
