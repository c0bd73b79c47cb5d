//! An option parsing library that decodes command-line flags into records.
//!
//! A record type describes its fields to a decoder in declaration order; the
//! same traversal drives two engines: a value decoder ([`FlagDecoder`]) that
//! consumes tokens and produces typed values, and a usage decoder
//! ([`usage::UsageDecoder`]) that collects field descriptors for a rendered
//! usage summary.
//!
//! A record's long flag is its field name in canonical form (`--`-prefixed,
//! underscores turned into hyphens); a single-character short alias may be
//! registered for any field through [`FlagConfiguration`].  One designated
//! "rest" field absorbs all tokens left over after every other field has been
//! resolved.

use vstd::prelude::*;
use vstd::string::StringExecFns;

pub mod laws;
pub mod numeric;
pub mod usage;
pub mod util;

pub use crate::usage::usage;

use crate::numeric::parse_u64;
use crate::numeric::spec_parse_u64;
use crate::util::canonical_field_name;
use crate::util::push_char;
use crate::util::spec_canonical_name;
use crate::util::str_eq;

verus! {

pub type HammerResult<T> = Result<T, HammerError>;

/// A decoding failure, carrying a human-readable message.
#[derive(Debug)]
pub struct HammerError {
    pub message: String,
}

impl Clone for HammerError {
    fn clone(&self) -> (r: Self)
        ensures
            r.message@ == self.message@,
    {
        HammerError { message: self.message.clone() }
    }
}

impl HammerError {
    /// Builds the failure result carrying the given message.
    pub fn new<T>(message: String) -> (r: HammerResult<T>)
        ensures
            r matches Err(e) && e.message@ == message@,
    {
        Err(HammerError { message })
    }
}

impl PartialEq for HammerError {
    fn eq(&self, other: &Self) -> bool {
        self.message == other.message
    }
}

impl vstd::std_specs::cmp::PartialEqSpecImpl for HammerError {
    open spec fn obeys_eq_spec() -> bool {
        true
    }

    open spec fn eq_spec(&self, other: &Self) -> bool {
        self.message@ == other.message@
    }
}

/// One registered short alias: a field's declared name and its
/// single-character short flag.
struct Alias {
    name: String,
    short: char,
}

/// The mathematical content of a [`FlagConfiguration`]: the alias
/// registrations in the order they were made, the optional description, and
/// the name of the designated rest field.
pub struct ConfigView {
    pub aliases: Seq<(Seq<char>, char)>,
    pub description: Option<Seq<char>>,
    pub rest_field: Seq<char>,
}

/// The alias registered for a field, if any; a later registration for the
/// same field shadows an earlier one.
pub open spec fn alias_lookup(aliases: Seq<(Seq<char>, char)>, field: Seq<char>) -> Option<char>
    decreases aliases.len(),
{
    if aliases.len() == 0 {
        None
    } else if aliases.last().0 == field {
        Some(aliases.last().1)
    } else {
        alias_lookup(aliases.drop_last(), field)
    }
}

/// Registering an alias appends it to the table.
pub open spec fn spec_short(v: ConfigView, name: Seq<char>, short: char) -> ConfigView {
    ConfigView { aliases: v.aliases.push((name, short)), ..v }
}

/// Setting the description replaces any earlier one.
pub open spec fn spec_desc(v: ConfigView, text: Seq<char>) -> ConfigView {
    ConfigView { description: Some(text), ..v }
}

/// Naming the rest field replaces any earlier choice.
pub open spec fn spec_rest_field(v: ConfigView, name: Seq<char>) -> ConfigView {
    ConfigView { rest_field: name, ..v }
}

/// The configuration associated with a record type: the short versions of its
/// flags, an optional description of the program, and the name of the field
/// that receives the leftover arguments.
pub struct FlagConfiguration {
    short_aliases: Vec<Alias>,
    description: Option<String>,
    rest_field: String,
}

impl View for FlagConfiguration {
    type V = ConfigView;

    closed spec fn view(&self) -> ConfigView {
        ConfigView {
            aliases: self.short_aliases@.map_values(|a: Alias| (a.name@, a.short)),
            description: self.description.deep_view(),
            rest_field: self.rest_field@,
        }
    }
}

impl FlagConfiguration {
    /// An empty configuration: no aliases, no description, and the default
    /// rest-field name `rest`.
    pub fn new() -> (c: FlagConfiguration)
        ensures
            c@.aliases == Seq::<(Seq<char>, char)>::empty(),
            c@.description is None,
            c@.rest_field == "rest"@,
    {
        let c = FlagConfiguration {
            short_aliases: Vec::new(),
            description: None,
            rest_field: String::from_str("rest"),
        };
        proof {
            assert(c@.aliases =~= Seq::<(Seq<char>, char)>::empty());
        }
        c
    }

    /// Registers a "short" version of a flag:
    /// `flag_config.short("verbose", 'v')`.
    pub fn short(self, string: &str, short: char) -> (c: FlagConfiguration)
        ensures
            c@ == spec_short(self@, string@, short),
    {
        let ghost pre = self@;
        let mut s = self;
        s.short_aliases.push(Alias { name: String::from_str(string), short });
        proof {
            assert(s@.aliases =~= pre.aliases.push((string@, short)));
        }
        s
    }

    /// Sets the description of the program:
    /// `flag_config.desc("Foo is a program to do bar")`.
    pub fn desc(self, string: &str) -> (c: FlagConfiguration)
        ensures
            c@ == spec_desc(self@, string@),
    {
        let mut s = self;
        s.description = Some(String::from_str(string));
        s
    }

    /// Changes the name of the "extra arguments" field:
    /// `flag_config.rest_field("remaining")`.
    pub fn rest_field(self, string: &str) -> (c: FlagConfiguration)
        ensures
            c@ == spec_rest_field(self@, string@),
    {
        let mut s = self;
        s.rest_field = String::from_str(string);
        s
    }

    /// The alias registered for the given field, if any.
    pub fn short_for(&self, field: &str) -> (r: Option<char>)
        ensures
            r == alias_lookup(self@.aliases, field@),
    {
        let mut i: usize = self.short_aliases.len();
        proof {
            assert(self@.aliases.subrange(0, i as int) =~= self@.aliases);
        }
        while i > 0
            invariant
                i <= self.short_aliases.len(),
                alias_lookup(self@.aliases, field@) == alias_lookup(
                    self@.aliases.subrange(0, i as int),
                    field@,
                ),
            decreases i,
        {
            i = i - 1;
            let entry = &self.short_aliases[i];
            proof {
                assert(self@.aliases.subrange(0, i + 1).last() == (entry.name@, entry.short));
                assert(self@.aliases.subrange(0, i + 1).drop_last() =~= self@.aliases.subrange(
                    0,
                    i as int,
                ));
            }
            if str_eq(entry.name.as_str(), field) {
                return Some(entry.short);
            }
        }
        None
    }

    /// The description of the program, if one was set.
    pub fn description(&self) -> (r: Option<String>)
        ensures
            match r {
                Some(d) => self@.description == Some(d@),
                None => self@.description is None,
            },
    {
        match &self.description {
            Some(d) => Some(d.clone()),
            None => None,
        }
    }
}

/// The two-character short form of an alias.
pub open spec fn spec_short_form(short: char) -> Seq<char> {
    seq!['-', short]
}

/// The position of the first token equal to `target`, if any.
pub open spec fn first_index_of(tokens: Seq<Seq<char>>, target: Seq<char>) -> Option<int>
    decreases tokens.len(),
{
    if tokens.len() == 0 {
        None
    } else if tokens[0] == target {
        Some(0)
    } else {
        match first_index_of(tokens.drop_first(), target) {
            Some(i) => Some(i + 1),
            None => None,
        }
    }
}

/// `first_index_of` names the first matching position: the token there is
/// equal to the target and no earlier token is.
pub proof fn lemma_first_index_of(tokens: Seq<Seq<char>>, target: Seq<char>)
    ensures
        match first_index_of(tokens, target) {
            Some(i) => 0 <= i < tokens.len() && tokens[i] == target && (forall|j: int|
                0 <= j < i ==> tokens[j] != target),
            None => forall|j: int| 0 <= j < tokens.len() ==> tokens[j] != target,
        },
    decreases tokens.len(),
{
    if tokens.len() > 0 && tokens[0] != target {
        let rest = tokens.drop_first();
        lemma_first_index_of(rest, target);
        match first_index_of(tokens, target) {
            Some(i) => {
                assert forall|j: int| 0 <= j < i implies tokens[j] != target by {
                    if j >= 1 {
                        assert(tokens[j] == rest[j - 1]);
                    }
                }
            },
            None => {
                assert forall|j: int| 0 <= j < tokens.len() implies tokens[j] != target by {
                    if j >= 1 {
                        assert(tokens[j] == rest[j - 1]);
                    }
                }
            },
        }
    }
}

/// The element-wise view of a token vector indexes as the vector does.
proof fn lemma_vec_string_deep(v: Vec<String>)
    ensures
        v.deep_view().len() == v@.len(),
        forall|k: int| 0 <= k < v@.len() ==> #[trigger] v.deep_view()[k] == v@[k]@,
{
}

/// Scans the token sequence for the first exact match of `target`.
fn find_token(source: &Vec<String>, target: &str) -> (r: Option<usize>)
    ensures
        match first_index_of(source.deep_view(), target@) {
            Some(i) => r matches Some(u) && u as int == i,
            None => r is None,
        },
{
    let n: usize = source.len();
    for j in 0..n
        invariant
            n == source.len(),
            forall|k: int| 0 <= k < j ==> source@[k]@ != target@,
    {
        proof {
            lemma_vec_string_deep(*source);
            lemma_first_index_of(source.deep_view(), target@);
        }
        if str_eq(source[j].as_str(), target) {
            proof {
                assert(source.deep_view()[j as int] == target@);
            }
            return Some(j);
        }
    }
    proof {
        lemma_vec_string_deep(*source);
        lemma_first_index_of(source.deep_view(), target@);
    }
    None
}

/// The token position matching the current field: the first token equal to
/// the field's canonical long form, or, failing that and if the field has a
/// registered alias, the first token equal to the alias's short form.
pub open spec fn spec_field_pos(
    source: Seq<Seq<char>>,
    aliases: Seq<(Seq<char>, char)>,
    field: Seq<char>,
) -> Option<int> {
    match first_index_of(source, spec_canonical_name(field)) {
        Some(i) => Some(i),
        None => match alias_lookup(aliases, field) {
            Some(a) => first_index_of(source, spec_short_form(a)),
            None => None,
        },
    }
}

/// A matched position names a real token: it lies inside the token sequence.
pub proof fn lemma_field_pos_bounds(
    source: Seq<Seq<char>>,
    aliases: Seq<(Seq<char>, char)>,
    field: Seq<char>,
)
    ensures
        spec_field_pos(source, aliases, field) matches Some(i) ==> 0 <= i < source.len(),
{
    lemma_first_index_of(source, spec_canonical_name(field));
    match alias_lookup(aliases, field) {
        Some(a) => lemma_first_index_of(source, spec_short_form(a)),
        None => {},
    }
}

/// The sub-state of a value-decode pass: either normal field-by-field
/// processing, or rest capture, where the payload is the position of the next
/// element to emit from the frozen remaining-token sequence.
#[derive(Debug, Clone, Copy)]
pub enum DecoderState {
    Processing,
    CapturingRest(usize),
}

/// The mathematical content of a [`FlagDecoder`].
pub struct DecoderView {
    pub source: Seq<Seq<char>>,
    pub current_field: Option<Seq<char>>,
    pub error: Option<Seq<char>>,
    pub config: ConfigView,
    pub state: DecoderState,
    pub done: bool,
}

/// The stateful value-decode engine: walks record fields in order, finds and
/// removes matching tokens, and converts token text into primitive values.
pub struct FlagDecoder {
    source: Vec<String>,
    current_field: Option<String>,
    /// A legacy error slot: failures are reported in each read's result, so
    /// a completed pass leaves this unset.
    pub error: Option<String>,
    config: FlagConfiguration,
    state: DecoderState,
    done: bool,
}

impl View for FlagDecoder {
    type V = DecoderView;

    closed spec fn view(&self) -> DecoderView {
        DecoderView {
            source: self.source.deep_view(),
            current_field: self.current_field.deep_view(),
            error: self.error.deep_view(),
            config: self.config@,
            state: self.state,
            done: self.done,
        }
    }
}

impl FlagDecoder {
    /// A fresh decoder over the given argument tokens, configured as the
    /// record type `T` directs.
    pub fn new<T: FlagConfig>(args: &[String]) -> (d: FlagDecoder)
        ensures
            d@.source == args.deep_view(),
            d@.current_field is None,
            d@.error is None,
            d@.state is Processing,
            d@.done == false,
    {
        FlagDecoder::with_config(args, T::config(FlagConfiguration::new()))
    }

    /// A fresh decoder over the given argument tokens, with the
    /// configuration passed in explicitly.
    pub fn with_config(args: &[String], config: FlagConfiguration) -> (d: FlagDecoder)
        ensures
            d@.source == args.deep_view(),
            d@.current_field is None,
            d@.error is None,
            d@.config == config@,
            d@.state is Processing,
            d@.done == false,
    {
        let mut source: Vec<String> = Vec::new();
        let n: usize = args.len();
        for i in 0..n
            invariant
                n == args@.len(),
                source@.len() == i,
                forall|j: int| 0 <= j < i ==> #[trigger] source@[j]@ == args@[j]@,
        {
            source.push(args[i].clone());
        }
        proof {
            lemma_vec_string_deep(source);
            assert(source.deep_view() =~= args.deep_view());
        }
        FlagDecoder {
            source,
            current_field: None,
            error: None,
            config,
            state: DecoderState::Processing,
            done: false,
        }
    }

    /// A snapshot of the tokens not yet claimed by any field.
    pub fn remaining(&self) -> (r: Vec<String>)
        ensures
            r.deep_view() == self@.source,
    {
        let mut r: Vec<String> = Vec::new();
        let n: usize = self.source.len();
        for i in 0..n
            invariant
                n == self.source@.len(),
                r@.len() == i,
                forall|j: int| 0 <= j < i ==> #[trigger] r@[j]@ == self.source@[j]@,
        {
            r.push(self.source[i].clone());
        }
        proof {
            lemma_vec_string_deep(r);
            lemma_vec_string_deep(self.source);
            assert(r.deep_view() =~= self.source.deep_view());
        }
        r
    }

    /// The canonical long form of the current field's name.
    fn canonical_field_name(&self) -> (r: String)
        requires
            self@.current_field is Some,
        ensures
            r@ == spec_canonical_name(self@.current_field->0),
    {
        canonical_field_name(self.current_field.as_ref().unwrap().as_str())
    }

    /// The token position matching the current field, long form first, then
    /// the registered alias.
    fn field_pos(&self) -> (r: Option<usize>)
        requires
            self@.current_field is Some,
        ensures
            match spec_field_pos(self@.source, self@.config.aliases, self@.current_field->0) {
                Some(i) => r matches Some(u) && u as int == i,
                None => r is None,
            },
    {
        let name = self.canonical_field_name();
        match find_token(&self.source, name.as_str()) {
            Some(i) => Some(i),
            None => {
                match self.config.short_for(self.current_field.as_ref().unwrap().as_str()) {
                    Some(a) => {
                        let mut short = String::new();
                        push_char(&mut short, '-');
                        push_char(&mut short, a);
                        proof {
                            assert(short@ =~= spec_short_form(a));
                        }
                        find_token(&self.source, short.as_str())
                    },
                    None => None,
                }
            },
        }
    }

    /// Removes the single token of a matched presence flag.
    fn remove_bool_field(&mut self)
        requires
            old(self)@.current_field is Some,
            spec_field_pos(
                old(self)@.source,
                old(self)@.config.aliases,
                old(self)@.current_field->0,
            ) is Some,
        ensures
            final(self)@ == (DecoderView {
                source: old(self)@.source.remove(
                    spec_field_pos(
                        old(self)@.source,
                        old(self)@.config.aliases,
                        old(self)@.current_field->0,
                    )->0,
                ),
                ..old(self)@
            }),
    {
        let pos = self.field_pos();
        let p: usize = pos.unwrap();
        proof {
            lemma_field_pos_bounds(self@.source, self@.config.aliases, self@.current_field->0);
            lemma_vec_string_deep(self.source);
        }
        self.source.remove(p);
        proof {
            lemma_vec_string_deep(self.source);
            assert(self.source.deep_view() =~= old(self).source.deep_view().remove(p as int));
        }
    }

    /// Removes the two tokens of a matched flag and its operand.
    fn remove_val_field(&mut self)
        requires
            old(self)@.current_field is Some,
            ({
                let p = spec_field_pos(
                    old(self)@.source,
                    old(self)@.config.aliases,
                    old(self)@.current_field->0,
                );
                p matches Some(i) && i + 1 < old(self)@.source.len()
            }),
        ensures
            final(self)@ == (DecoderView {
                source: ({
                    let i = spec_field_pos(
                        old(self)@.source,
                        old(self)@.config.aliases,
                        old(self)@.current_field->0,
                    )->0;
                    old(self)@.source.remove(i).remove(i)
                }),
                ..old(self)@
            }),
    {
        let pos = self.field_pos();
        let p: usize = pos.unwrap();
        proof {
            lemma_field_pos_bounds(self@.source, self@.config.aliases, self@.current_field->0);
            lemma_vec_string_deep(self.source);
        }
        self.source.remove(p);
        proof {
            lemma_vec_string_deep(self.source);
            assert(self.source.deep_view() =~= old(self).source.deep_view().remove(p as int));
        }
        let ghost mid_deep = self.source.deep_view();
        self.source.remove(p);
        proof {
            lemma_vec_string_deep(self.source);
            assert(self.source.deep_view() =~= mid_deep.remove(p as int));
        }
    }

    /// Reads a boolean presence flag for the current field: true, removing
    /// the flag token, when a matching token is present; false, with no
    /// mutation, when it is absent.  A presence flag never fails to decode,
    /// but a read without a current field is a protocol violation and is
    /// reported as one.
    pub fn read_bool(&mut self) -> (r: HammerResult<bool>)
        ensures
            final(self)@ == spec_bool_read(old(self)@).1,
            (spec_bool_read(old(self)@).0 matches Ok(b) ==> r matches Ok(x) && x == b),
            (spec_bool_read(old(self)@).0 matches Err(m) ==> r matches Err(e) && e.message@ == m),
    {
        if self.current_field.is_none() {
            return HammerError::new(no_field_message());
        }
        match self.field_pos() {
            None => Ok(false),
            Some(_) => {
                self.remove_bool_field();
                Ok(true)
            },
        }
    }

    /// Reads the current field's string value, the base conversion primitive.
    /// In rest capture this returns the token at the captured position of the
    /// frozen snapshot, with no removal.  Otherwise the token following the
    /// matched flag is returned and both tokens are removed; a mandatory
    /// field with no matching token fails with a "required" error naming its
    /// canonical form; failed reads never mutate the token sequence.
    pub fn read_str(&mut self) -> (r: HammerResult<String>)
        ensures
            final(self)@ == spec_str_read(old(self)@).1,
            (spec_str_read(old(self)@).0 matches Ok(s) ==> r matches Ok(x) && x@ == s),
            (spec_str_read(old(self)@).0 matches Err(m) ==> r matches Err(e) && e.message@ == m),
    {
        proof {
            lemma_vec_string_deep(self.source);
        }
        match self.state {
            DecoderState::CapturingRest(i) => {
                if i < self.source.len() {
                    return Ok(self.source[i].clone());
                } else {
                    return HammerError::new(no_rest_token_message());
                }
            },
            DecoderState::Processing => {},
        }
        if self.current_field.is_none() {
            return HammerError::new(no_field_message());
        }
        let position = self.field_pos();
        proof {
            lemma_field_pos_bounds(self@.source, self@.config.aliases, self@.current_field->0);
        }
        match position {
            None => {
                let mut msg = self.canonical_field_name();
                msg.append(" is required");
                HammerError::new(msg)
            },
            Some(pos) => {
                let n: usize = self.source.len();
                if pos < n - 1 {
                    let val = self.source[pos + 1].clone();
                    self.remove_val_field();
                    Ok(val)
                } else {
                    let mut msg = self.canonical_field_name();
                    msg.append(" is missing a following string");
                    HammerError::new(msg)
                }
            },
        }
    }

    /// Enters the named field: sets the current field context, after checking
    /// that the rest field has not already completed.
    pub fn read_struct_field(&mut self, f_name: &str) -> (r: HammerResult<()>)
        ensures
            final(self)@ == spec_field_visit(old(self)@, f_name@).1,
            (spec_field_visit(old(self)@, f_name@).0 is Ok ==> r is Ok),
            (spec_field_visit(old(self)@, f_name@).0 matches Err(m) ==> r matches Err(e)
                && e.message@ == m),
    {
        if self.done {
            let mut msg = String::from_str("Flag struct must not contain any fields after ");
            msg.append(self.config.rest_field.as_str());
            return HammerError::new(msg);
        }
        self.current_field = Some(String::from_str(f_name));
        Ok(())
    }

    /// Reports whether the current optional field is present, consuming
    /// nothing: the caller reads the inner value only when it is.
    pub fn read_option(&mut self) -> (r: HammerResult<bool>)
        ensures
            final(self)@ == old(self)@,
            (spec_option_read(old(self)@) matches Ok(b) ==> r matches Ok(x) && x == b),
            (spec_option_read(old(self)@) matches Err(m) ==> r matches Err(e) && e.message@ == m),
    {
        if self.current_field.is_none() {
            return HammerError::new(no_field_message());
        }
        match self.field_pos() {
            None => Ok(false),
            Some(_) => Ok(true),
        }
    }

    /// Reads one element of the rest capture: advances the captured position
    /// by one after handing out the token there.
    pub fn read_seq_elt(&mut self) -> (r: HammerResult<String>)
        ensures
            final(self)@ == spec_seq_elt_read(old(self)@).1,
            (spec_seq_elt_read(old(self)@).0 matches Ok(s) ==> r matches Ok(x) && x@ == s),
            (spec_seq_elt_read(old(self)@).0 matches Err(m) ==> r matches Err(e) && e.message@
                == m),
    {
        match self.state {
            DecoderState::Processing => {
                HammerError::new(String::from_str("sequence element read outside of rest capture"))
            },
            DecoderState::CapturingRest(i) => {
                let n: usize = self.source.len();
                proof {
                    lemma_vec_string_deep(self.source);
                }
                match self.read_str() {
                    Ok(v) => {
                        self.state = DecoderState::CapturingRest(i + 1);
                        Ok(v)
                    },
                    Err(e) => Err(e),
                }
            },
        }
    }

    /// Reads the rest field: snapshots the remaining-token length, enters
    /// rest capture, emits every remaining token in order through element
    /// reads, and marks the pass done.  Only the designated rest field may
    /// hold a sequence.
    pub fn read_seq(&mut self) -> (r: HammerResult<Vec<String>>)
        ensures
            final(self)@ == spec_seq_read(old(self)@).1,
            (spec_seq_read(old(self)@).0 matches Ok(items) ==> r matches Ok(v) && v.deep_view()
                == items),
            (spec_seq_read(old(self)@).0 matches Err(m) ==> r matches Err(e) && e.message@ == m),
    {
        if self.current_field.is_none() {
            return HammerError::new(no_field_message());
        }
        if !str_eq(self.current_field.as_ref().unwrap().as_str(), self.config.rest_field.as_str())
        {
            return HammerError::new(
                String::from_str("sequence fields other than the rest field are not supported"),
            );
        }
        let ghost orig = self@;
        proof {
            lemma_vec_string_deep(self.source);
        }
        let len: usize = self.source.len();
        self.state = DecoderState::CapturingRest(0);
        let mut items: Vec<String> = Vec::new();
        for k in 0..len
            invariant
                self@.state == DecoderState::CapturingRest(k),
                self@.source == orig.source,
                self@.current_field == orig.current_field,
                self@.error == orig.error,
                self@.config == orig.config,
                self@.done == orig.done,
                len == self@.source.len(),
                items@.len() == k,
                forall|j: int| 0 <= j < k ==> #[trigger] items@[j]@ == self@.source[j],
        {
            match self.read_seq_elt() {
                Ok(v) => {
                    items.push(v);
                },
                Err(e) => {
                    proof {
                        assert(false);
                    }
                    return Err(e);
                },
            }
        }
        self.done = true;
        proof {
            lemma_vec_string_deep(items);
            assert(items.deep_view() =~= orig.source);
        }
        Ok(items)
    }

    /// Reads the current field's value as an unsigned integer, by converting
    /// the string read's result; text that is not a decimal number fails with
    /// a conversion error naming the offending text.
    pub fn read_uint(&mut self) -> (r: HammerResult<u64>)
        ensures
            final(self)@ == spec_str_read(old(self)@).1,
            (spec_str_read(old(self)@).0 matches Err(m) ==> r matches Err(e) && e.message@ == m),
            (spec_str_read(old(self)@).0 matches Ok(s) ==> (match spec_parse_u64(s) {
                Some(v) => r == Ok::<u64, HammerError>(v),
                None => r matches Err(e) && e.message@ == spec_not_integer_message(s),
            })),
    {
        match self.read_str() {
            Ok(s) => {
                match parse_u64(s.as_str()) {
                    Some(v) => Ok(v),
                    None => {
                        let mut msg = String::from_str("could not convert ");
                        msg.append(s.as_str());
                        msg.append(" to an integer");
                        HammerError::new(msg)
                    },
                }
            },
            Err(e) => Err(e),
        }
    }

    /// Reads an unsigned 64-bit value; an alias for the plain unsigned read.
    pub fn read_u64(&mut self) -> (r: HammerResult<u64>)
        ensures
            final(self)@ == spec_str_read(old(self)@).1,
            (spec_str_read(old(self)@).0 matches Err(m) ==> r matches Err(e) && e.message@ == m),
            (spec_str_read(old(self)@).0 matches Ok(s) ==> (match spec_parse_u64(s) {
                Some(v) => r == Ok::<u64, HammerError>(v),
                None => r matches Err(e) && e.message@ == spec_not_integer_message(s),
            })),
    {
        self.read_uint()
    }

    /// Reads an unsigned value and narrows it to 32 bits, truncating silently
    /// rather than reporting overflow.
    pub fn read_u32(&mut self) -> (r: HammerResult<u32>)
        ensures
            final(self)@ == spec_str_read(old(self)@).1,
            (spec_str_read(old(self)@).0 matches Err(m) ==> r matches Err(e) && e.message@ == m),
            (spec_str_read(old(self)@).0 matches Ok(s) ==> (match spec_parse_u64(s) {
                Some(v) => r == Ok::<u32, HammerError>(v as u32),
                None => r matches Err(e) && e.message@ == spec_not_integer_message(s),
            })),
    {
        match self.read_uint() {
            Ok(v) => Ok(#[verifier::truncate] (v as u32)),
            Err(e) => Err(e),
        }
    }

    /// Reads an unsigned value and narrows it to 16 bits, truncating silently
    /// rather than reporting overflow.
    pub fn read_u16(&mut self) -> (r: HammerResult<u16>)
        ensures
            final(self)@ == spec_str_read(old(self)@).1,
            (spec_str_read(old(self)@).0 matches Err(m) ==> r matches Err(e) && e.message@ == m),
            (spec_str_read(old(self)@).0 matches Ok(s) ==> (match spec_parse_u64(s) {
                Some(v) => r == Ok::<u16, HammerError>(v as u16),
                None => r matches Err(e) && e.message@ == spec_not_integer_message(s),
            })),
    {
        match self.read_uint() {
            Ok(v) => Ok(#[verifier::truncate] (v as u16)),
            Err(e) => Err(e),
        }
    }

    /// Reads an unsigned value and narrows it to 8 bits, truncating silently
    /// rather than reporting overflow.
    pub fn read_u8(&mut self) -> (r: HammerResult<u8>)
        ensures
            final(self)@ == spec_str_read(old(self)@).1,
            (spec_str_read(old(self)@).0 matches Err(m) ==> r matches Err(e) && e.message@ == m),
            (spec_str_read(old(self)@).0 matches Ok(s) ==> (match spec_parse_u64(s) {
                Some(v) => r == Ok::<u8, HammerError>(v as u8),
                None => r matches Err(e) && e.message@ == spec_not_integer_message(s),
            })),
    {
        match self.read_uint() {
            Ok(v) => Ok(#[verifier::truncate] (v as u8)),
            Err(e) => Err(e),
        }
    }

    /// Reads a signed value through the unsigned read, reinterpreting the
    /// bits; negative spellings are not recognized.
    pub fn read_int(&mut self) -> (r: HammerResult<i64>)
        ensures
            final(self)@ == spec_str_read(old(self)@).1,
            (spec_str_read(old(self)@).0 matches Err(m) ==> r matches Err(e) && e.message@ == m),
            (spec_str_read(old(self)@).0 matches Ok(s) ==> (match spec_parse_u64(s) {
                Some(v) => r == Ok::<i64, HammerError>(v as i64),
                None => r matches Err(e) && e.message@ == spec_not_integer_message(s),
            })),
    {
        match self.read_uint() {
            Ok(v) => Ok(#[verifier::truncate] (v as i64)),
            Err(e) => Err(e),
        }
    }

    /// Reads a signed 64-bit value; an alias for the plain signed read.
    pub fn read_i64(&mut self) -> (r: HammerResult<i64>)
        ensures
            final(self)@ == spec_str_read(old(self)@).1,
            (spec_str_read(old(self)@).0 matches Err(m) ==> r matches Err(e) && e.message@ == m),
            (spec_str_read(old(self)@).0 matches Ok(s) ==> (match spec_parse_u64(s) {
                Some(v) => r == Ok::<i64, HammerError>(v as i64),
                None => r matches Err(e) && e.message@ == spec_not_integer_message(s),
            })),
    {
        self.read_int()
    }

    /// Reads a signed value and narrows it to 32 bits, truncating silently.
    pub fn read_i32(&mut self) -> (r: HammerResult<i32>)
        ensures
            final(self)@ == spec_str_read(old(self)@).1,
            (spec_str_read(old(self)@).0 matches Err(m) ==> r matches Err(e) && e.message@ == m),
            (spec_str_read(old(self)@).0 matches Ok(s) ==> (match spec_parse_u64(s) {
                Some(v) => r == Ok::<i32, HammerError>(v as i32),
                None => r matches Err(e) && e.message@ == spec_not_integer_message(s),
            })),
    {
        match self.read_uint() {
            Ok(v) => Ok(#[verifier::truncate] (v as i32)),
            Err(e) => Err(e),
        }
    }

    /// Reads a signed value and narrows it to 16 bits, truncating silently.
    pub fn read_i16(&mut self) -> (r: HammerResult<i16>)
        ensures
            final(self)@ == spec_str_read(old(self)@).1,
            (spec_str_read(old(self)@).0 matches Err(m) ==> r matches Err(e) && e.message@ == m),
            (spec_str_read(old(self)@).0 matches Ok(s) ==> (match spec_parse_u64(s) {
                Some(v) => r == Ok::<i16, HammerError>(v as i16),
                None => r matches Err(e) && e.message@ == spec_not_integer_message(s),
            })),
    {
        match self.read_uint() {
            Ok(v) => Ok(#[verifier::truncate] (v as i16)),
            Err(e) => Err(e),
        }
    }

    /// Reads a signed value and narrows it to 8 bits, truncating silently.
    pub fn read_i8(&mut self) -> (r: HammerResult<i8>)
        ensures
            final(self)@ == spec_str_read(old(self)@).1,
            (spec_str_read(old(self)@).0 matches Err(m) ==> r matches Err(e) && e.message@ == m),
            (spec_str_read(old(self)@).0 matches Ok(s) ==> (match spec_parse_u64(s) {
                Some(v) => r == Ok::<i8, HammerError>(v as i8),
                None => r matches Err(e) && e.message@ == spec_not_integer_message(s),
            })),
    {
        match self.read_uint() {
            Ok(v) => Ok(#[verifier::truncate] (v as i8)),
            Err(e) => Err(e),
        }
    }

    /// Reads the current field's value as a single character; longer or
    /// shorter text fails with an error naming the offending text.
    pub fn read_char(&mut self) -> (r: HammerResult<char>)
        ensures
            final(self)@ == spec_str_read(old(self)@).1,
            (spec_str_read(old(self)@).0 matches Err(m) ==> r matches Err(e) && e.message@ == m),
            (spec_str_read(old(self)@).0 matches Ok(s) ==> (match spec_char_of(s) {
                Ok(c) => r == Ok::<char, HammerError>(c),
                Err(m) => r matches Err(e) && e.message@ == m,
            })),
    {
        match self.read_str() {
            Ok(s) => {
                if s.as_str().unicode_len() == 1 {
                    Ok(s.as_str().get_char(0))
                } else {
                    let mut msg = s;
                    msg.append(" is not a single character");
                    HammerError::new(msg)
                }
            },
            Err(e) => Err(e),
        }
    }
}

/// The message reported when a read is attempted with no current field: this
/// happens only when a record traversal drives the decoder out of protocol.
pub open spec fn spec_no_field_message() -> Seq<char> {
    "no current field"@
}

/// Builds the out-of-protocol message.
pub fn no_field_message() -> (r: String)
    ensures
        r@ == spec_no_field_message(),
{
    String::from_str("no current field")
}

/// Builds the out-of-protocol rest message.
pub fn no_rest_token_message() -> (r: String)
    ensures
        r@ == spec_no_rest_token_message(),
{
    String::from_str("no rest token remains")
}

/// The message reported when token text does not convert to an integer.
pub open spec fn spec_not_integer_message(s: Seq<char>) -> Seq<char> {
    "could not convert "@ + s + " to an integer"@
}

/// What character conversion of token text yields: the character of a
/// one-character string; anything else does not convert.
pub open spec fn spec_char_of(s: Seq<char>) -> Result<char, Seq<char>> {
    if s.len() == 1 {
        Ok(s[0])
    } else {
        Err(s + " is not a single character"@)
    }
}

/// What a boolean read returns and what it leaves of the decoder.
pub open spec fn spec_bool_read(v: DecoderView) -> (Result<bool, Seq<char>>, DecoderView) {
    if v.current_field is None {
        (Err(spec_no_field_message()), v)
    } else {
        match spec_field_pos(v.source, v.config.aliases, v.current_field->0) {
            Some(i) => (Ok(true), DecoderView { source: v.source.remove(i), ..v }),
            None => (Ok(false), v),
        }
    }
}

/// The message reported when a mandatory field has no matching flag token.
pub open spec fn spec_required_message(field: Seq<char>) -> Seq<char> {
    spec_canonical_name(field) + " is required"@
}

/// The message reported when a matched flag token is the last token, so no
/// operand follows it.
pub open spec fn spec_missing_value_message(field: Seq<char>) -> Seq<char> {
    spec_canonical_name(field) + " is missing a following string"@
}

/// The message reported when a rest-capture read runs past the frozen token
/// snapshot: this happens only when a record traversal drives the decoder out
/// of protocol.
pub open spec fn spec_no_rest_token_message() -> Seq<char> {
    "no rest token remains"@
}

/// The message reported when a field is visited after the rest field
/// completed.
pub open spec fn spec_after_rest_message(rest_field: Seq<char>) -> Seq<char> {
    "Flag struct must not contain any fields after "@ + rest_field
}

/// The message reported when a sequence read is attempted on a field other
/// than the designated rest field.
pub open spec fn spec_seq_not_rest_message() -> Seq<char> {
    "sequence fields other than the rest field are not supported"@
}

/// The message reported when a sequence element is read outside rest capture.
pub open spec fn spec_elt_outside_rest_message() -> Seq<char> {
    "sequence element read outside of rest capture"@
}

/// What a string read returns: in rest capture, the token at the captured
/// position of the frozen remaining-token snapshot; otherwise the operand
/// following the current field's matched flag token, a "required" failure
/// when no token matches, or a "missing a following string" failure when the
/// matched flag is the last token.
pub open spec fn spec_str_read(v: DecoderView) -> (Result<Seq<char>, Seq<char>>, DecoderView) {
    match v.state {
        DecoderState::CapturingRest(i) => {
            if i < v.source.len() {
                (Ok(v.source[i as int]), v)
            } else {
                (Err(spec_no_rest_token_message()), v)
            }
        },
        DecoderState::Processing => {
            if v.current_field is None {
                (Err(spec_no_field_message()), v)
            } else {
                let field = v.current_field->0;
                match spec_field_pos(v.source, v.config.aliases, field) {
                    None => (Err(spec_required_message(field)), v),
                    Some(i) => {
                        if i + 1 < v.source.len() {
                            (
                                Ok(v.source[i + 1]),
                                DecoderView { source: v.source.remove(i).remove(i), ..v },
                            )
                        } else {
                            (Err(spec_missing_value_message(field)), v)
                        }
                    },
                }
            }
        },
    }
}

/// What visiting a field does: once the rest field has completed, any further
/// visit fails; otherwise the field becomes the current field context.
pub open spec fn spec_field_visit(v: DecoderView, name: Seq<char>) -> (
    Result<(), Seq<char>>,
    DecoderView,
) {
    if v.done {
        (Err(spec_after_rest_message(v.config.rest_field)), v)
    } else {
        (Ok(()), DecoderView { current_field: Some(name), ..v })
    }
}

/// What an optional read returns: whether the current field has a matching
/// token, with nothing consumed either way.
pub open spec fn spec_option_read(v: DecoderView) -> Result<bool, Seq<char>> {
    if v.current_field is None {
        Err(spec_no_field_message())
    } else {
        Ok(spec_field_pos(v.source, v.config.aliases, v.current_field->0) is Some)
    }
}

/// What one rest-capture element read returns: the token at the captured
/// position, advancing the position by one.
pub open spec fn spec_seq_elt_read(v: DecoderView) -> (Result<Seq<char>, Seq<char>>, DecoderView) {
    match v.state {
        DecoderState::Processing => (Err(spec_elt_outside_rest_message()), v),
        DecoderState::CapturingRest(i) => {
            if i < v.source.len() {
                (
                    Ok(v.source[i as int]),
                    DecoderView { state: DecoderState::CapturingRest((i + 1) as usize), ..v },
                )
            } else {
                (Err(spec_no_rest_token_message()), v)
            }
        },
    }
}

/// What a sequence read returns: permitted only for the designated rest
/// field, it emits every remaining token in order, removes nothing, and marks
/// the pass done.
pub open spec fn spec_seq_read(v: DecoderView) -> (
    Result<Seq<Seq<char>>, Seq<char>>,
    DecoderView,
) {
    if v.current_field is None {
        (Err(spec_no_field_message()), v)
    } else if v.current_field->0 != v.config.rest_field {
        (Err(spec_seq_not_rest_message()), v)
    } else {
        (
            Ok(v.source),
            DecoderView {
                state: DecoderState::CapturingRest(v.source.len() as usize),
                done: true,
                ..v
            },
        )
    }
}

/// Per-record-type static metadata, supplied once by the record type itself:
/// implement this to register short aliases, a description, or a different
/// rest-field name.
pub trait FlagConfig {
    /// Refines the empty configuration handed in by the decoder.
    fn config(c: FlagConfiguration) -> FlagConfiguration;
}

/// The shared field-traversal protocol: one method per primitive shape.  A
/// record type's traversal is written once against this trait and drives
/// either engine, without knowing which: the value decoder consumes and
/// converts tokens, while the usage decoder records a descriptor per field.
/// The exact behavior of each engine is stated on its own inherent methods,
/// which these share their names with.
pub trait Decoder {
    /// Enters the named field; fields are visited in declaration order.
    fn read_struct_field(&mut self, f_name: &str) -> HammerResult<()>;

    /// Reads the current field as a boolean presence flag.
    fn read_bool(&mut self) -> HammerResult<bool>;

    /// Reads the current field as an unsigned integer.
    fn read_uint(&mut self) -> HammerResult<u64>;

    /// Reads the current field as an unsigned 64-bit integer.
    fn read_u64(&mut self) -> HammerResult<u64>;

    /// Reads the current field as an unsigned 32-bit integer.
    fn read_u32(&mut self) -> HammerResult<u32>;

    /// Reads the current field as an unsigned 16-bit integer.
    fn read_u16(&mut self) -> HammerResult<u16>;

    /// Reads the current field as an unsigned 8-bit integer.
    fn read_u8(&mut self) -> HammerResult<u8>;

    /// Reads the current field as a signed integer.
    fn read_int(&mut self) -> HammerResult<i64>;

    /// Reads the current field as a signed 64-bit integer.
    fn read_i64(&mut self) -> HammerResult<i64>;

    /// Reads the current field as a signed 32-bit integer.
    fn read_i32(&mut self) -> HammerResult<i32>;

    /// Reads the current field as a signed 16-bit integer.
    fn read_i16(&mut self) -> HammerResult<i16>;

    /// Reads the current field as a signed 8-bit integer.
    fn read_i8(&mut self) -> HammerResult<i8>;

    /// Reads the current field as a single character.
    fn read_char(&mut self) -> HammerResult<char>;

    /// Reads the current field as a string.
    fn read_str(&mut self) -> HammerResult<String>;

    /// Reads whether the current optional field is present; the traversal
    /// reads the inner value exactly when it is.
    fn read_option(&mut self) -> HammerResult<bool>;

    /// Reads the current field as a sequence of the remaining tokens.
    fn read_seq(&mut self) -> HammerResult<Vec<String>>;
}

impl Decoder for FlagDecoder {
    fn read_struct_field(&mut self, f_name: &str) -> HammerResult<()> {
        FlagDecoder::read_struct_field(self, f_name)
    }

    fn read_bool(&mut self) -> HammerResult<bool> {
        FlagDecoder::read_bool(self)
    }

    fn read_uint(&mut self) -> HammerResult<u64> {
        FlagDecoder::read_uint(self)
    }

    fn read_u64(&mut self) -> HammerResult<u64> {
        FlagDecoder::read_u64(self)
    }

    fn read_u32(&mut self) -> HammerResult<u32> {
        FlagDecoder::read_u32(self)
    }

    fn read_u16(&mut self) -> HammerResult<u16> {
        FlagDecoder::read_u16(self)
    }

    fn read_u8(&mut self) -> HammerResult<u8> {
        FlagDecoder::read_u8(self)
    }

    fn read_int(&mut self) -> HammerResult<i64> {
        FlagDecoder::read_int(self)
    }

    fn read_i64(&mut self) -> HammerResult<i64> {
        FlagDecoder::read_i64(self)
    }

    fn read_i32(&mut self) -> HammerResult<i32> {
        FlagDecoder::read_i32(self)
    }

    fn read_i16(&mut self) -> HammerResult<i16> {
        FlagDecoder::read_i16(self)
    }

    fn read_i8(&mut self) -> HammerResult<i8> {
        FlagDecoder::read_i8(self)
    }

    fn read_char(&mut self) -> HammerResult<char> {
        FlagDecoder::read_char(self)
    }

    fn read_str(&mut self) -> HammerResult<String> {
        FlagDecoder::read_str(self)
    }

    fn read_option(&mut self) -> HammerResult<bool> {
        FlagDecoder::read_option(self)
    }

    fn read_seq(&mut self) -> HammerResult<Vec<String>> {
        FlagDecoder::read_seq(self)
    }
}

/// A record type decodable from flags: its traversal visits every declared
/// field once, in declaration order, against the shared protocol.
pub trait Flags: FlagConfig + Sized {
    /// Visits every declared field once, in declaration order, reading each
    /// through the decoder handed in.
    fn decode<D: Decoder>(d: &mut D) -> HammerResult<Self>;
}

/// Decodes the argument tokens into a record of type `T`: builds a fresh
/// value decoder over the tokens, configured as `T` directs, and drives
/// `T`'s traversal over it.  What each field read returns and consumes is
/// stated on the value decoder's own methods.
pub fn decode_args<T: Flags>(args: &[String]) -> HammerResult<T> {
    let mut decoder = FlagDecoder::new::<T>(args);
    T::decode(&mut decoder)
}

} // verus!
