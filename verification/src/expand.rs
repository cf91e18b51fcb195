//! What the `messages` attribute decides about an impl block: which methods become
//! messages, of which kind and under which names, and what the generated items are
//! called. The token streams themselves are parsed and rendered by the caller; this
//! module works on a plain model of the impl block.
use crate::naming::{
    is_snake_name, lemma_pascal_case_distinguishes_snake_names, lemma_pascal_case_has_no_underscore,
    lemma_snake_case_inverts_pascal_case, pascal_case, snake_case,
    string_push, to_pascal_case, to_snake_case,
};
use crate::syntax::{attr_meta, impl_models, impl_parse, parse_attr, parse_item_impl, read_impl_block};
use vstd::prelude::*;

verus! {

/// Whether flattening a type name drops `c`: spaces, angle brackets and commas.
pub open spec fn dropped_char(c: char) -> bool {
    c == ' ' || c == '<' || c == '>' || c == ','
}

/// `s` without the characters that `dropped_char` names, in order.
pub open spec fn strip_chars(s: Seq<char>) -> Seq<char>
    decreases s.len(),
{
    if s.len() == 0 {
        Seq::empty()
    } else {
        let rest = strip_chars(s.drop_last());
        if dropped_char(s.last()) {
            rest
        } else {
            rest.push(s.last())
        }
    }
}

/// `s` with every `"::"` removed, read left to right as `str::replace` does: a
/// `"::"` is removed, and the scan goes on after it.
pub open spec fn remove_path_separators(s: Seq<char>) -> Seq<char>
    decreases s.len(),
{
    if s.len() == 0 {
        Seq::empty()
    } else if s.len() >= 2 && s[0] == ':' && s[1] == ':' {
        remove_path_separators(s.skip(2))
    } else {
        seq![s[0]] + remove_path_separators(s.skip(1))
    }
}

/// The actor's type as written, flattened into one word: without spaces, angle
/// brackets, commas and path separators.
pub open spec fn flat_type_name(tokens: Seq<char>) -> Seq<char> {
    remove_path_separators(strip_chars(tokens))
}

fn strip_type_chars(s: &str) -> (out: Vec<char>)
    ensures
        out@ == strip_chars(s@),
{
    broadcast use vstd::string::group_string_axioms;
    let mut out: Vec<char> = Vec::new();
    for c in it: s.chars()
        invariant
            it.seq() == s@,
            out@ == strip_chars(s@.take(it.index() as int)),
    {
        assert(s@.take(it.index() as int + 1).drop_last() == s@.take(it.index() as int));
        if !(c == ' ' || c == '<' || c == '>' || c == ',') {
            out.push(c);
        }
    }
    assert(s@.take(s@.len() as int) == s@);
    out
}

fn without_path_separators(chars: &Vec<char>) -> (out: String)
    ensures
        out@ == remove_path_separators(chars@),
{
    let mut out = String::new();
    let n = chars.len();
    let mut i: usize = 0;
    assert(chars@.skip(0) == chars@);
    while i < n
        invariant
            n == chars@.len(),
            i <= n,
            out@ + remove_path_separators(chars@.skip(i as int)) == remove_path_separators(chars@),
        decreases n - i,
    {
        let ghost rest = chars@.skip(i as int);
        if i + 1 < n && chars[i] == ':' && chars[i + 1] == ':' {
            assert(rest.skip(2) == chars@.skip(i + 2));
            i = i + 2;
        } else {
            assert(rest.skip(1) == chars@.skip(i + 1));
            let c = chars[i];
            string_push(&mut out, c);
            assert(out@ + remove_path_separators(chars@.skip(i + 1)) == remove_path_separators(chars@));
            i = i + 1;
        }
    }
    assert(chars@.skip(n as int) == Seq::<char>::empty());
    out
}

/// Flattens the actor's type, as written, into the word that names its module.
pub fn flatten_type_name(tokens: &str) -> (name: String)
    ensures
        name@ == flat_type_name(tokens@),
{
    let chars = strip_type_chars(tokens);
    without_path_separators(&chars)
}

/// How the generated handle sends: awaiting room in a bounded channel, or at once into
/// an unbounded one.
#[derive(Debug, Clone, Copy, PartialEq, Eq, Structural)]
pub enum Mode {
    Bounded,
    Unbounded,
}

/// The names of the library traits that the generated code implements and uses.
pub open spec fn mode_trait_names(mode: Mode) -> (Seq<char>, Seq<char>, Seq<char>) {
    match mode {
        Mode::Bounded => ("BoundedActor"@, "ActorHandle"@, "ChannelSender"@),
        Mode::Unbounded => ("UnboundedActor"@, "UnboundedActorHandle"@, "UnboundedChannelSender"@),
    }
}

impl Mode {
    /// The names of the actor trait, the handle trait and the sender trait that the
    /// generated code names for this mode.
    pub fn trait_names(&self) -> (names: (String, String, String))
        ensures
            (names.0@, names.1@, names.2@) == mode_trait_names(*self),
    {
        match self {
            Mode::Bounded => (
                String::from_str("BoundedActor"),
                String::from_str("ActorHandle"),
                String::from_str("ChannelSender"),
            ),
            Mode::Unbounded => (
                String::from_str("UnboundedActor"),
                String::from_str("UnboundedActorHandle"),
                String::from_str("UnboundedChannelSender"),
            ),
        }
    }
}

/// Why the macro refuses its input.
#[derive(Debug, Clone, Copy, PartialEq, Eq, Structural)]
pub enum MacroError {
    /// The attribute's argument is neither `unbounded` nor `default`.
    InvalidAttribute,
    /// The impl's type is a path without segments.
    NoActorName,
    /// The impl's type is not a path.
    UnexpectedType,
}

/// The text of the compile error that the macro emits for `e`.
pub open spec fn macro_error_text(e: MacroError) -> Seq<char> {
    match e {
        MacroError::InvalidAttribute => "Invalid attribute parameter. Use #[lakka::messages(unbounded)] or #[lakka::messages] only"@,
        MacroError::NoActorName => "Unable to determine actor name"@,
        MacroError::UnexpectedType => "Unexpected type in impl block"@,
    }
}

impl MacroError {
    /// The text of the compile error for this refusal.
    pub fn message(&self) -> (s: String)
        ensures
            s@ == macro_error_text(*self),
    {
        match self {
            MacroError::InvalidAttribute => String::from_str(
                "Invalid attribute parameter. Use #[lakka::messages(unbounded)] or #[lakka::messages] only",
            ),
            MacroError::NoActorName => String::from_str("Unable to determine actor name"),
            MacroError::UnexpectedType => String::from_str("Unexpected type in impl block"),
        }
    }
}

/// The argument of the attribute, as far as the macro reads it: not a meta item at all
/// (an empty argument among them), a path (with its identifier when the path is one
/// plain identifier), or any other meta item.
#[derive(Debug, Clone, PartialEq, Eq)]
pub enum MacroAttr {
    Unparsed,
    Path(Option<String>),
    Other,
}

/// The mode that the attribute asks for: `unbounded`, or `default` and no argument
/// for a bounded channel; anything else is refused.
pub open spec fn attr_mode(attr: MacroAttr) -> Result<Mode, MacroError> {
    match attr {
        MacroAttr::Unparsed => Ok(Mode::Bounded),
        MacroAttr::Path(Some(ident)) => if ident@ == "unbounded"@ {
            Ok(Mode::Unbounded)
        } else if ident@ == "default"@ {
            Ok(Mode::Bounded)
        } else {
            Err(MacroError::InvalidAttribute)
        },
        _ => Err(MacroError::InvalidAttribute),
    }
}

/// Reads the attribute's argument.
pub fn parse_mode(attr: &MacroAttr) -> (mode: Result<Mode, MacroError>)
    ensures
        mode == attr_mode(*attr),
{
    match attr {
        MacroAttr::Unparsed => Ok(Mode::Bounded),
        MacroAttr::Path(Some(ident)) => {
            if *ident == String::from_str("unbounded") {
                Ok(Mode::Unbounded)
            } else if *ident == String::from_str("default") {
                Ok(Mode::Bounded)
            } else {
                Err(MacroError::InvalidAttribute)
            }
        },
        _ => Err(MacroError::InvalidAttribute),
    }
}

/// The kind of one generic argument of the actor's type.
#[derive(Debug, Clone, Copy, PartialEq, Eq, Structural)]
pub enum GenericArg {
    Type,
    Lifetime,
    Other,
}

/// The last segment of the actor's type path: its identifier and the kinds of its
/// angle-bracketed generic arguments (none when it has no angle brackets).
#[derive(Debug, Clone, PartialEq, Eq)]
pub struct PathEnd {
    pub ident: String,
    pub args: Vec<GenericArg>,
}

/// The type that the impl block is for.
#[derive(Debug, Clone, PartialEq, Eq)]
pub enum SelfType {
    /// A path type, with its last segment, if it has any.
    Path(Option<PathEnd>),
    /// Any other type.
    Other,
}

/// One input of a method.
#[derive(Debug, Clone, PartialEq, Eq)]
pub enum FnInput {
    /// A `self` input: `reference` when it is taken by reference, `colon` when it is
    /// written with an explicit type (`self: &Self`).
    Receiver { reference: bool, colon: bool },
    /// A typed input, with its name when its pattern is a plain identifier.
    Typed { ident: Option<String> },
}

/// A method's signature, as far as the macro reads it.
#[derive(Debug, Clone, PartialEq, Eq)]
pub struct MethodSig {
    pub name: String,
    pub inputs: Vec<FnInput>,
    pub returns_value: bool,
    pub is_async: bool,
}

/// One item of the impl block.
#[derive(Debug, Clone, PartialEq, Eq)]
pub enum ImplItem {
    Method(MethodSig),
    Other,
}

/// The impl block that the attribute is put on: its type (also as written, in tokens),
/// whether the impl declares generic parameters, and its items in order.
#[derive(Debug, Clone, PartialEq, Eq)]
pub struct ImplBlock {
    pub self_ty: SelfType,
    pub self_ty_tokens: String,
    pub has_generics: bool,
    pub items: Vec<ImplItem>,
}

/// A method becomes a message when its first input is `&self` or `&mut self` written
/// in the short form.
pub open spec fn is_message_method(item: ImplItem) -> bool {
    match item {
        ImplItem::Method(m) => m.inputs@.len() > 0 && (m.inputs@[0] matches FnInput::Receiver {
            reference: true,
            colon: false,
        }),
        ImplItem::Other => false,
    }
}

/// The indices, in order, of the items that become messages.
pub open spec fn message_item_indices(items: Seq<ImplItem>) -> Seq<int>
    decreases items.len(),
{
    if items.len() == 0 {
        Seq::empty()
    } else {
        let rest = message_item_indices(items.drop_last());
        if is_message_method(items.last()) {
            rest.push(items.len() - 1)
        } else {
            rest
        }
    }
}

/// An input becomes a field of the message when it is typed, named by a plain
/// identifier, and that identifier is not `self`.
pub open spec fn is_field_input(input: FnInput) -> bool {
    match input {
        FnInput::Typed { ident: Some(name) } => name@ != "self"@,
        _ => false,
    }
}

/// The indices, in order, of the inputs that become fields of the message.
pub open spec fn field_indices(inputs: Seq<FnInput>) -> Seq<usize>
    decreases inputs.len(),
{
    if inputs.len() == 0 {
        Seq::empty()
    } else {
        let rest = field_indices(inputs.drop_last());
        if is_field_input(inputs.last()) {
            rest.push((inputs.len() - 1) as usize)
        } else {
            rest
        }
    }
}

/// Whether a message is answered: `Ask` when its method returns a value, else `Tell`.
#[derive(Debug, Clone, Copy, PartialEq, Eq, Structural)]
pub enum MessageKind {
    Tell,
    Ask,
}

/// One message of the actor: the method it comes from (the item's index), the enum
/// variant that carries it, its kind, the inputs that become the variant's fields (by
/// index into the method's inputs), and whether the handler awaits the method.
#[derive(Debug, Clone, PartialEq, Eq)]
pub struct MessagePlan {
    pub item: usize,
    pub variant: String,
    pub kind: MessageKind,
    pub fields: Vec<usize>,
    pub is_async: bool,
}

/// `p` is the message that the macro makes of the method at `index` of `items`.
pub open spec fn message_matches(p: MessagePlan, items: Seq<ImplItem>, index: int) -> bool {
    &&& p.item == index
    &&& 0 <= index < items.len()
    &&& match items[index] {
        ImplItem::Method(m) => {
            &&& p.variant@ == pascal_case(m.name@)
            &&& p.kind == (if m.returns_value {
                MessageKind::Ask
            } else {
                MessageKind::Tell
            })
            &&& p.fields@ == field_indices(m.inputs@)
            &&& p.is_async == m.is_async
        },
        ImplItem::Other => false,
    }
}

/// `ps` are the messages of `items`: one for each method that becomes a message, in order.
pub open spec fn messages_planned(ps: Seq<MessagePlan>, items: Seq<ImplItem>) -> bool {
    let idx = message_item_indices(items);
    &&& ps.len() == idx.len()
    &&& forall|k: int| 0 <= k < ps.len() ==> #[trigger] message_matches(ps[k], items, idx[k])
}

/// The indices of the inputs that become fields of the message, in order.
pub fn args_to_fields_and_args(args: &Vec<FnInput>) -> (fields: Vec<usize>)
    ensures
        fields@ == field_indices(args@),
{
    let mut fields: Vec<usize> = Vec::new();
    let n = args.len();
    for i in 0..n
        invariant
            n == args@.len(),
            fields@ == field_indices(args@.take(i as int)),
    {
        assert(args@.take(i + 1).drop_last() == args@.take(i as int));
        assert(args@.take(i + 1).last() == args@[i as int]);
        match &args[i] {
            FnInput::Typed { ident: Some(ident) } => {
                if !(*ident == String::from_str("self")) {
                    fields.push(i);
                }
            },
            _ => {},
        }
    }
    assert(args@.take(n as int) == args@);
    fields
}

fn is_message_method_exec(item: &ImplItem) -> (b: bool)
    ensures
        b == is_message_method(*item),
{
    match item {
        ImplItem::Method(m) => {
            if m.inputs.len() > 0 {
                match &m.inputs[0] {
                    FnInput::Receiver { reference: true, colon: false } => true,
                    _ => false,
                }
            } else {
                false
            }
        },
        ImplItem::Other => false,
    }
}

/// The messages that the impl block's methods become, in order.
pub fn plan_messages(items: &Vec<ImplItem>) -> (plans: Vec<MessagePlan>)
    ensures
        messages_planned(plans@, items@),
{
    let mut plans: Vec<MessagePlan> = Vec::new();
    let n = items.len();
    for i in 0..n
        invariant
            n == items@.len(),
            messages_planned(plans@, items@.take(i as int)),
            forall|k: int| 0 <= k < plans@.len() ==> plans@[k].item < i,
    {
        let ghost prefix = items@.take(i as int);
        let ghost next = items@.take(i + 1);
        assert(next.drop_last() == prefix);
        assert(next.last() == items@[i as int]);
        assert forall|k: int| 0 <= k < plans@.len() implies #[trigger] message_matches(
            plans@[k],
            next,
            message_item_indices(prefix)[k],
        ) by {
            assert(message_matches(plans@[k], prefix, message_item_indices(prefix)[k]));
            assert(next[plans@[k].item as int] == prefix[plans@[k].item as int]);
        }
        if is_message_method_exec(&items[i]) {
            match &items[i] {
                ImplItem::Method(m) => {
                    let variant = to_pascal_case(m.name.as_str());
                    let kind = if m.returns_value {
                        MessageKind::Ask
                    } else {
                        MessageKind::Tell
                    };
                    let fields = args_to_fields_and_args(&m.inputs);
                    let plan = MessagePlan { item: i, variant, kind, fields, is_async: m.is_async };
                    assert(message_matches(plan, next, i as int));
                    plans.push(plan);
                    assert(message_item_indices(next) == message_item_indices(prefix).push(i as int));
                    assert forall|k: int| 0 <= k < plans@.len() implies #[trigger] message_matches(
                        plans@[k],
                        next,
                        message_item_indices(next)[k],
                    ) by {
                        if k < plans@.len() - 1 {
                            assert(message_item_indices(next)[k] == message_item_indices(prefix)[k]);
                        }
                    }
                },
                ImplItem::Other => {},
            }
        }
    }
    assert(items@.take(n as int) == items@);
    plans
}

/// The actor's name: the identifier of the last segment of its type path.
pub open spec fn actor_name(t: SelfType) -> Result<Seq<char>, MacroError> {
    match t {
        SelfType::Path(Some(end)) => Ok(end.ident@),
        SelfType::Path(None) => Err(MacroError::NoActorName),
        SelfType::Other => Err(MacroError::UnexpectedType),
    }
}

/// The generic arguments of the actor's type (empty for a type that is no path).
pub open spec fn type_args(t: SelfType) -> Seq<GenericArg> {
    match t {
        SelfType::Path(Some(end)) => end.args@,
        _ => Seq::empty(),
    }
}

/// Everything the generated code is made of, besides the tokens of the impl block:
/// the mode, the actor's name, the names of the generated module, enums, message type
/// and handle, where the generated items take their generics from (the impl's own
/// parameters, or else the type's arguments), the type arguments that need a phantom
/// field, and the messages.
#[derive(Debug, Clone, PartialEq, Eq)]
pub struct ExpansionPlan {
    pub mode: Mode,
    pub name: String,
    pub module_name: String,
    pub ask_enum: String,
    pub tell_enum: String,
    pub message_name: String,
    pub handle_name: String,
    pub generics_from_impl: bool,
    pub phantoms: Vec<GenericArg>,
    pub messages: Vec<MessagePlan>,
}

/// `p` is the plan for an actor called `name` of the impl block `item`, in `mode`,
/// whose phantoms are `phantoms`.
pub open spec fn plan_for(
    p: ExpansionPlan,
    mode: Mode,
    name: Seq<char>,
    item: ImplBlock,
    phantoms: Seq<GenericArg>,
) -> bool {
    &&& p.mode == mode
    &&& p.name@ == name
    &&& p.module_name@ == snake_case(flat_type_name(item.self_ty_tokens@))
    &&& p.ask_enum@ == name + "AskMessage"@
    &&& p.tell_enum@ == name + "TellMessage"@
    &&& p.message_name@ == name + "Message"@
    &&& p.handle_name@ == name + "Handle"@
    &&& p.generics_from_impl == item.has_generics
    &&& p.phantoms@ == phantoms
    &&& messages_planned(p.messages@, item.items@)
}

/// `name` followed by `suffix`.
fn suffixed(name: &String, suffix: &str) -> (s: String)
    ensures
        s@ == name@ + suffix@,
{
    name.clone().concat(suffix)
}

/// The generic arguments of the last segment of the actor's type path.
pub fn extract_generic_params(t: &SelfType) -> (args: Vec<GenericArg>)
    ensures
        args@ == type_args(*t),
{
    match t {
        SelfType::Path(Some(end)) => {
            let mut args: Vec<GenericArg> = Vec::new();
            for i in 0..end.args.len()
                invariant
                    args@ == end.args@.take(i as int),
            {
                args.push(end.args[i]);
                assert(args@ == end.args@.take(i + 1));
            }
            assert(end.args@.take(end.args@.len() as int) == end.args@);
            args
        },
        _ => Vec::new(),
    }
}

pub(crate) fn build_plan(
    mode: Mode,
    item: &ImplBlock,
    phantoms: Vec<GenericArg>,
) -> (res: Result<ExpansionPlan, MacroError>)
    ensures
        match actor_name(item.self_ty) {
            Err(e) => res == Err::<ExpansionPlan, MacroError>(e),
            Ok(name) => res is Ok && plan_for(res->Ok_0, mode, name, *item, phantoms@),
        },
{
    let name = match &item.self_ty {
        SelfType::Path(Some(end)) => end.ident.clone(),
        SelfType::Path(None) => { return Err(MacroError::NoActorName) },
        SelfType::Other => { return Err(MacroError::UnexpectedType) },
    };
    let type_string = flatten_type_name(item.self_ty_tokens.as_str());
    let module_name = to_snake_case(type_string.as_str());
    let ask_enum = suffixed(&name, "AskMessage");
    let tell_enum = suffixed(&name, "TellMessage");
    let message_name = suffixed(&name, "Message");
    let handle_name = suffixed(&name, "Handle");
    let messages = plan_messages(&item.items);
    Ok(
        ExpansionPlan {
            mode,
            name,
            module_name,
            ask_enum,
            tell_enum,
            message_name,
            handle_name,
            generics_from_impl: item.has_generics,
            phantoms,
            messages,
        },
    )
}

/// What the `messages` attribute makes of `item`, with the argument `attr`: the
/// attribute is read first, then the actor's type; the module is named after the type
/// without spaces, brackets, commas and path separators, and each generic argument of
/// the type gets a phantom field.
pub fn messages(attr: &MacroAttr, item: &ImplBlock) -> (res: Result<ExpansionPlan, MacroError>)
    ensures
        match attr_mode(*attr) {
            Err(e) => res == Err::<ExpansionPlan, MacroError>(e),
            Ok(mode) => match actor_name(item.self_ty) {
                Err(e) => res == Err::<ExpansionPlan, MacroError>(e),
                Ok(name) => res is Ok && plan_for(
                    res->Ok_0,
                    mode,
                    name,
                    *item,
                    type_args(item.self_ty),
                ),
            },
        },
{
    let mode = match parse_mode(attr) {
        Ok(mode) => mode,
        Err(e) => { return Err(e) },
    };
    let phantoms = extract_generic_params(&item.self_ty);
    build_plan(mode, item, phantoms)
}

proof fn lemma_strip_chars_keeps_plain(s: Seq<char>)
    requires
        forall|i: int|
            0 <= i < s.len() ==> #[trigger] s[i] != ' ' && s[i] != '<' && s[i] != '>' && s[i]
                != ',',
    ensures
        strip_chars(s) == s,
    decreases s.len(),
{
    if s.len() > 0 {
        let p = s.drop_last();
        assert forall|i: int|
            0 <= i < p.len() implies #[trigger] p[i] != ' ' && p[i] != '<' && p[i] != '>' && p[i]
                != ',' by {
            assert(p[i] == s[i]);
        }
        lemma_strip_chars_keeps_plain(p);
        assert(s.last() == s[s.len() - 1]);
        assert(p.push(s.last()) == s);
    }
}

proof fn lemma_path_separators_keep_plain(s: Seq<char>)
    requires
        forall|i: int| 0 <= i < s.len() ==> #[trigger] s[i] != ':',
    ensures
        remove_path_separators(s) == s,
    decreases s.len(),
{
    if s.len() > 0 {
        let r = s.skip(1);
        assert forall|i: int| 0 <= i < r.len() implies #[trigger] r[i] != ':' by {
            assert(r[i] == s[i + 1]);
        }
        lemma_path_separators_keep_plain(r);
        assert(s[0] != ':');
        assert(seq![s[0]] + r =~= s);
    }
}

/// Flattening keeps every character but spaces, angle brackets, commas and colons: a
/// type name made of other characters alone, such as letters, digits and `'_'`,
/// flattens to itself.
pub proof fn lemma_flatten_keeps_plain_names(s: Seq<char>)
    requires
        forall|i: int|
            0 <= i < s.len() ==> #[trigger] s[i] != ' ' && s[i] != '<' && s[i] != '>' && s[i]
                != ',' && s[i] != ':',
    ensures
        flat_type_name(s) == s,
{
    lemma_strip_chars_keeps_plain(s);
    lemma_path_separators_keep_plain(s);
}

proof fn lemma_strip_chars_ignores_inserted(s: Seq<char>, i: int, c: char)
    requires
        0 <= i <= s.len(),
        c == ' ' || c == '<' || c == '>' || c == ',',
    ensures
        strip_chars(s.insert(i, c)) == strip_chars(s),
    decreases s.len(),
{
    let t = s.insert(i, c);
    if i == s.len() {
        assert(t.drop_last() == s);
        assert(t.last() == c);
    } else {
        let p = s.drop_last();
        lemma_strip_chars_ignores_inserted(p, i, c);
        assert(t.drop_last() == p.insert(i, c));
        assert(t.last() == s.last());
    }
}

proof fn lemma_path_separators_after_plain(a: Seq<char>, t: Seq<char>)
    requires
        forall|i: int| 0 <= i < a.len() ==> #[trigger] a[i] != ':',
    ensures
        remove_path_separators(a + t) == a + remove_path_separators(t),
    decreases a.len(),
{
    if a.len() > 0 {
        let r = a.skip(1);
        assert forall|i: int| 0 <= i < r.len() implies #[trigger] r[i] != ':' by {
            assert(r[i] == a[i + 1]);
        }
        lemma_path_separators_after_plain(r, t);
        assert((a + t)[0] == a[0]);
        assert((a + t).skip(1) == r + t);
        assert(seq![a[0]] + (r + remove_path_separators(t)) =~= a + remove_path_separators(t));
    } else {
        assert(a + t == t);
        assert(a + remove_path_separators(t) == remove_path_separators(t));
    }
}

/// Flattening drops a space, an angle bracket or a comma wherever it stands: inserting
/// one anywhere into a type name changes nothing of the flattened name.
pub proof fn lemma_flatten_ignores_spacing_and_brackets(s: Seq<char>, i: int, c: char)
    requires
        0 <= i <= s.len(),
        c == ' ' || c == '<' || c == '>' || c == ',',
    ensures
        flat_type_name(s.insert(i, c)) == flat_type_name(s),
{
    lemma_strip_chars_ignores_inserted(s, i, c);
}

/// Flattening joins the segments of a path: the `"::"` between two plain names is
/// dropped, and the names are kept whole.
pub proof fn lemma_flatten_joins_path_segments(a: Seq<char>, b: Seq<char>)
    requires
        forall|i: int|
            0 <= i < a.len() ==> #[trigger] a[i] != ' ' && a[i] != '<' && a[i] != '>' && a[i]
                != ',' && a[i] != ':',
        forall|i: int|
            0 <= i < b.len() ==> #[trigger] b[i] != ' ' && b[i] != '<' && b[i] != '>' && b[i]
                != ',' && b[i] != ':',
    ensures
        flat_type_name(a + seq![':', ':'] + b) == a + b,
{
    let sep = seq![':', ':'];
    let t = sep + b;
    let s = a + t;
    assert(a + sep + b == s);
    assert forall|i: int|
        0 <= i < s.len() implies #[trigger] s[i] != ' ' && s[i] != '<' && s[i] != '>' && s[i]
            != ',' by {
        if i < a.len() {
            assert(s[i] == a[i]);
        } else if i < a.len() + 2 {
            assert(s[i] == ':');
        } else {
            assert(s[i] == b[i - a.len() - 2]);
        }
    }
    lemma_strip_chars_keeps_plain(s);
    lemma_path_separators_after_plain(a, t);
    assert(t.len() >= 2 && t[0] == ':' && t[1] == ':');
    assert(t.skip(2) == b);
    lemma_path_separators_keep_plain(b);
}

/// Each field of a message is an input of the method that is typed and named by a plain
/// identifier other than `self`; the fields come in the order of the inputs; and every
/// such input is among them, so there are as many fields as such inputs.
pub proof fn lemma_fields_are_the_named_inputs(inputs: Seq<FnInput>)
    requires
        inputs.len() <= usize::MAX,
    ensures
        forall|a: int|
            0 <= a < field_indices(inputs).len() ==> {
                let j = #[trigger] field_indices(inputs)[a] as int;
                &&& j < inputs.len()
                &&& match inputs[j] {
                    FnInput::Typed { ident: Some(name) } => name@ != "self"@,
                    _ => false,
                }
            },
        forall|a: int, b: int|
            0 <= a < b < field_indices(inputs).len() ==> #[trigger] field_indices(inputs)[a]
                < #[trigger] field_indices(inputs)[b],
        forall|j: int|
            0 <= j < inputs.len() && (match #[trigger] inputs[j] {
                FnInput::Typed { ident: Some(name) } => name@ != "self"@,
                _ => false,
            }) ==> field_indices(inputs).contains(j as usize),
    decreases inputs.len(),
{
    if inputs.len() > 0 {
        let p = inputs.drop_last();
        let n = inputs.len() - 1;
        lemma_fields_are_the_named_inputs(p);
        let rest = field_indices(p);
        let f = field_indices(inputs);
        assert(inputs.last() == inputs[n]);
        assert forall|j: int| 0 <= j < n implies #[trigger] inputs[j] == p[j] by {}
        if is_field_input(inputs.last()) {
            assert(f == rest.push(n as usize));
            assert forall|a: int| 0 <= a < f.len() implies {
                let j = #[trigger] f[a] as int;
                &&& j < inputs.len()
                &&& match inputs[j] {
                    FnInput::Typed { ident: Some(name) } => name@ != "self"@,
                    _ => false,
                }
            } by {
                if a < rest.len() {
                    assert(f[a] == rest[a]);
                    assert(inputs[rest[a] as int] == p[rest[a] as int]);
                }
            }
            assert forall|a: int, b: int| 0 <= a < b < f.len() implies #[trigger] f[a] < #[trigger] f[b] by {
                assert(f[a] == rest[a]);
                if b < rest.len() {
                    assert(f[b] == rest[b]);
                }
            }
            assert forall|j: int|
                0 <= j < inputs.len() && (match #[trigger] inputs[j] {
                    FnInput::Typed { ident: Some(name) } => name@ != "self"@,
                    _ => false,
                }) implies f.contains(j as usize) by {
                if j < n {
                    assert(inputs[j] == p[j]);
                    assert(rest.contains(j as usize));
                    let k = choose|k: int| 0 <= k < rest.len() && rest[k] == j as usize;
                    assert(f[k] == j as usize);
                } else {
                    assert(f[rest.len() as int] == j as usize);
                }
            }
        } else {
            assert(f == rest);
            assert forall|a: int| 0 <= a < f.len() implies {
                let j = #[trigger] f[a] as int;
                &&& j < inputs.len()
                &&& match inputs[j] {
                    FnInput::Typed { ident: Some(name) } => name@ != "self"@,
                    _ => false,
                }
            } by {
                assert(inputs[rest[a] as int] == p[rest[a] as int]);
            }
            assert forall|j: int|
                0 <= j < inputs.len() && (match #[trigger] inputs[j] {
                    FnInput::Typed { ident: Some(name) } => name@ != "self"@,
                    _ => false,
                }) implies f.contains(j as usize) by {
                if j < n {
                    assert(inputs[j] == p[j]);
                } else {
                    assert(is_field_input(inputs[j]));
                }
            }
        }
    }
}

proof fn lemma_message_item_indices_complete(items: Seq<ImplItem>)
    ensures
        forall|i: int|
            0 <= i < items.len() && is_message_method(#[trigger] items[i])
                ==> message_item_indices(items).contains(i),
    decreases items.len(),
{
    if items.len() > 0 {
        let p = items.drop_last();
        lemma_message_item_indices_complete(p);
        let rest = message_item_indices(p);
        let idx = message_item_indices(items);
        assert forall|i: int|
            0 <= i < items.len() && is_message_method(#[trigger] items[i]) implies idx.contains(i) by {
            if i < p.len() {
                assert(items[i] == p[i]);
                assert(rest.contains(i));
                let k = choose|k: int| 0 <= k < rest.len() && rest[k] == i;
                if is_message_method(items.last()) {
                    assert(idx[k] == i);
                } else {
                    assert(idx == rest);
                }
            } else {
                assert(items.last() == items[i]);
                assert(idx[rest.len() as int] == i);
            }
        }
    }
}

/// The messages are exactly the methods whose first input is `&self` or `&mut self`,
/// written in the short form: each such method gives a message, no other item does, and
/// the messages follow the order of the methods in the impl block.
pub proof fn lemma_messages_are_the_receiver_methods(ps: Seq<MessagePlan>, items: Seq<ImplItem>)
    requires
        messages_planned(ps, items),
    ensures
        forall|i: int|
            0 <= i < items.len() && (match #[trigger] items[i] {
                ImplItem::Method(m) => m.inputs@.len() > 0 && (m.inputs@[0] matches FnInput::Receiver {
                    reference: true,
                    colon: false,
                }),
                ImplItem::Other => false,
            }) ==> exists|k: int| 0 <= k < ps.len() && ps[k].item == i,
        forall|k: int|
            0 <= k < ps.len() ==> 0 <= #[trigger] ps[k].item < items.len() && match items[ps[k].item as int] {
                ImplItem::Method(m) => m.inputs@.len() > 0 && (m.inputs@[0] matches FnInput::Receiver {
                    reference: true,
                    colon: false,
                }),
                ImplItem::Other => false,
            },
        forall|j: int, k: int| 0 <= j < k < ps.len() ==> #[trigger] ps[j].item < #[trigger] ps[k].item,
{
    lemma_message_item_indices_increase(items);
    lemma_message_item_indices_complete(items);
    let idx = message_item_indices(items);
    assert forall|k: int| 0 <= k < ps.len() implies #[trigger] ps[k].item == idx[k] by {
        assert(message_matches(ps[k], items, idx[k]));
    }
    assert forall|i: int|
        0 <= i < items.len() && (match #[trigger] items[i] {
            ImplItem::Method(m) => m.inputs@.len() > 0 && (m.inputs@[0] matches FnInput::Receiver {
                reference: true,
                colon: false,
            }),
            ImplItem::Other => false,
        }) implies exists|k: int| 0 <= k < ps.len() && ps[k].item == i by {
        assert(is_message_method(items[i]));
        assert(idx.contains(i));
        let k = choose|k: int| 0 <= k < idx.len() && idx[k] == i;
        assert(ps[k].item == i);
    }
    assert forall|j: int, k: int| 0 <= j < k < ps.len() implies #[trigger] ps[j].item < #[trigger] ps[k].item by {
        assert(ps[j].item == idx[j]);
        assert(ps[k].item == idx[k]);
        assert(idx[j] < idx[k]);
    }
    assert forall|k: int| 0 <= k < ps.len() implies 0 <= #[trigger] ps[k].item < items.len() && match items[ps[k].item as int] {
        ImplItem::Method(m) => m.inputs@.len() > 0 && (m.inputs@[0] matches FnInput::Receiver {
            reference: true,
            colon: false,
        }),
        ImplItem::Other => false,
    } by {
        assert(ps[k].item == idx[k]);
        assert(is_message_method(items[idx[k]]));
    }
}

/// A message's variant is named after its method: for a snake_case method name, the
/// variant has no underscore and turns back into the method's name in snake_case.
pub proof fn lemma_variant_names_its_method(ps: Seq<MessagePlan>, items: Seq<ImplItem>, k: int)
    requires
        messages_planned(ps, items),
        0 <= k < ps.len(),
        0 <= ps[k].item < items.len() ==> is_snake_name(method_name(items[ps[k].item as int])),
    ensures
        0 <= ps[k].item < items.len(),
        snake_case(ps[k].variant@) == method_name(items[ps[k].item as int]),
        forall|i: int| 0 <= i < ps[k].variant@.len() ==> #[trigger] ps[k].variant@[i] != '_',
{
    assert(message_matches(ps[k], items, message_item_indices(items)[k]));
    let name = method_name(items[ps[k].item as int]);
    lemma_snake_case_inverts_pascal_case(name);
    lemma_pascal_case_has_no_underscore(name);
}

/// A message is an `Ask`, answered through a reply channel, exactly when its method
/// declares a return type; whether the method is async does not change its kind.
pub proof fn lemma_ask_exactly_when_method_returns_value(
    ps: Seq<MessagePlan>,
    items: Seq<ImplItem>,
    k: int,
)
    requires
        messages_planned(ps, items),
        0 <= k < ps.len(),
    ensures
        0 <= ps[k].item < items.len(),
        match items[ps[k].item as int] {
            ImplItem::Method(m) => {
                &&& ps[k].kind == MessageKind::Ask <==> m.returns_value
                &&& ps[k].kind == MessageKind::Tell <==> !m.returns_value
            },
            ImplItem::Other => false,
        },
{
    assert(message_matches(ps[k], items, message_item_indices(items)[k]));
}

/// The name of a method item (empty for any other item).
pub open spec fn method_name(item: ImplItem) -> Seq<char> {
    match item {
        ImplItem::Method(m) => m.name@,
        ImplItem::Other => Seq::empty(),
    }
}

proof fn lemma_message_item_indices_increase(items: Seq<ImplItem>)
    ensures
        forall|a: int|
            0 <= a < message_item_indices(items).len() ==> 0 <= #[trigger] message_item_indices(
                items,
            )[a] < items.len() && is_message_method(items[message_item_indices(items)[a]]),
        forall|a: int, b: int|
            0 <= a < b < message_item_indices(items).len() ==> #[trigger] message_item_indices(
                items,
            )[a] < #[trigger] message_item_indices(items)[b],
    decreases items.len(),
{
    if items.len() > 0 {
        let prefix = items.drop_last();
        lemma_message_item_indices_increase(prefix);
        let rest = message_item_indices(prefix);
        let idx = message_item_indices(items);
        assert forall|a: int| 0 <= a < rest.len() implies items[rest[a]] == prefix[rest[a]] by {
            assert(0 <= rest[a] < prefix.len());
        }
        if is_message_method(items.last()) {
            assert(idx == rest.push(items.len() - 1));
            assert forall|a: int| 0 <= a < idx.len() implies 0 <= #[trigger] idx[a] < items.len()
                && is_message_method(items[idx[a]]) by {
                if a < rest.len() {
                    assert(idx[a] == rest[a]);
                    assert(0 <= rest[a] < prefix.len() && is_message_method(prefix[rest[a]]));
                } else {
                    assert(idx[a] == items.len() - 1);
                    assert(items[items.len() - 1] == items.last());
                }
            }
            assert forall|a: int, b: int| 0 <= a < b < idx.len() implies #[trigger] idx[a] < #[trigger] idx[b] by {
                assert(idx[a] == rest[a]);
                assert(rest[a] < prefix.len());
                if b < rest.len() {
                    assert(idx[b] == rest[b]);
                    assert(rest[a] < rest[b]);
                } else {
                    assert(idx[b] == items.len() - 1);
                }
            }
        } else {
            assert(idx == rest);
        }
    }
}

/// Methods whose names are distinct snake_case names become messages with distinct
/// enum variants, so the generated enums never repeat a variant.
pub proof fn lemma_distinct_snake_methods_give_distinct_variants(
    ps: Seq<MessagePlan>,
    items: Seq<ImplItem>,
    j: int,
    k: int,
)
    requires
        messages_planned(ps, items),
        forall|i: int|
            0 <= i < items.len() && is_message_method(#[trigger] items[i]) ==> is_snake_name(
                method_name(items[i]),
            ),
        forall|a: int, b: int|
            0 <= a < b < items.len() && is_message_method(#[trigger] items[a]) && is_message_method(
                #[trigger] items[b],
            ) ==> method_name(items[a]) != method_name(items[b]),
        0 <= j < k < ps.len(),
    ensures
        ps[j].variant@ != ps[k].variant@,
{
    lemma_message_item_indices_increase(items);
    let idx = message_item_indices(items);
    assert(message_matches(ps[j], items, idx[j]));
    assert(message_matches(ps[k], items, idx[k]));
    let a = idx[j];
    let b = idx[k];
    assert(a < b);
    assert(is_message_method(items[a]) && is_message_method(items[b]));
    lemma_pascal_case_distinguishes_snake_names(method_name(items[a]), method_name(items[b]));
}

/// What the macro read of its tokens: the attribute, and the impl block (parsed and as
/// a model) when the attribute allowed reading it and it parsed.
pub struct MacroInput {
    pub attr: MacroAttr,
    pub item: Option<(syn::ItemImpl, ImplBlock)>,
}

/// Why the macro emits a compile error: it refuses what it read, or the item is no
/// impl block (with the text of the error).
#[derive(Debug, Clone, PartialEq, Eq)]
pub enum ExpandError {
    Refused(MacroError),
    Unparsable(String),
}

/// The text of the compile error for `e`.
pub open spec fn expand_error_text(e: ExpandError) -> Seq<char> {
    match e {
        ExpandError::Refused(m) => macro_error_text(m),
        ExpandError::Unparsable(text) => text@,
    }
}

impl ExpandError {
    /// The text of the compile error.
    pub fn message(&self) -> (s: String)
        ensures
            s@ == expand_error_text(*self),
    {
        match self {
            ExpandError::Refused(e) => e.message(),
            ExpandError::Unparsable(text) => text.clone(),
        }
    }
}

/// The outcome of planning the impl block `block`, in `mode`, with the given phantoms:
/// the refusal of its type, or a plan for it.
pub open spec fn planned_from(
    block: ImplBlock,
    mode: Mode,
    phantoms: Seq<GenericArg>,
    r: Result<ExpansionPlan, ExpandError>,
) -> bool {
    match actor_name(block.self_ty) {
        Err(e) => r == Err::<ExpansionPlan, ExpandError>(ExpandError::Refused(e)),
        Ok(name) => r is Ok && plan_for(r->Ok_0, mode, name, block, phantoms),
    }
}

/// The text of the error for an item that is no impl block starts with this.
pub open spec fn unparsable_prefix() -> Seq<char> {
    "Error with parsing input: "@
}

/// The parse of an item that is no impl block: the error text is `syn`'s, after
/// `unparsable_prefix`.
pub(crate) fn unparsable(syn_text: String) -> (e: ExpandError)
    ensures
        e is Unparsable,
        e->Unparsable_0@ == unparsable_prefix() + syn_text@,
{
    ExpandError::Unparsable(String::from_str("Error with parsing input: ").concat(syn_text.as_str()))
}

/// The `messages` attribute on the raw tokens of its argument and of the item: reads
/// the argument first and refuses a bad one without reading the item; then parses the
/// item as an impl block (an item that does not parse is refused with `syn`'s error
/// text), reads its model and plans it.
pub fn messages_from_tokens(
    attr: proc_macro2::TokenStream,
    item: proc_macro2::TokenStream,
) -> (r: (MacroInput, Result<ExpansionPlan, ExpandError>))
    ensures
        r.0.attr == attr_meta(attr),
        match attr_mode(r.0.attr) {
            Err(e) => r.0.item is None && r.1 == Err::<ExpansionPlan, ExpandError>(
                ExpandError::Refused(e),
            ),
            Ok(mode) => match r.0.item {
                None => impl_parse(item) is Err && (r.1 matches Err(ExpandError::Unparsable(text))
                    && text@ == unparsable_prefix() + impl_parse(item)->Err_0),
                Some((ast, block)) => {
                    &&& impl_parse(item) == Ok::<syn::ItemImpl, Seq<char>>(ast)
                    &&& impl_models(block, ast)
                    &&& planned_from(block, mode, type_args(block.self_ty), r.1)
                },
            },
        },
{
    let attr = parse_attr(attr);
    if let Err(e) = parse_mode(&attr) {
        return (MacroInput { attr, item: None }, Err(ExpandError::Refused(e)));
    }
    let parsed = match parse_item_impl(item) {
        Ok(ast) => ast,
        Err(text) => {
            let e = unparsable(text);
            return (MacroInput { attr, item: None }, Err(e));
        },
    };
    let block = read_impl_block(&parsed);
    let plan = match messages(&attr, &block) {
        Ok(plan) => Ok(plan),
        Err(e) => Err(ExpandError::Refused(e)),
    };
    (MacroInput { attr, item: Some((parsed, block)) }, plan)
}

} // verus!
