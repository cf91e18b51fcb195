//! Reading the tokens of the `messages` attribute with `syn`. Each trusted item below
//! makes one `syn` call or reads one field, and its result is named; the verified
//! `read_impl_block` puts what they read together, and `impl_models` states the model
//! it builds over those names.
use crate::expand::{FnInput, GenericArg, ImplBlock, ImplItem, MacroAttr, MethodSig, PathEnd, SelfType};
use quote::ToTokens;
use vstd::prelude::*;

verus! {

/// A token stream as the compiler hands it to a macro.
#[verifier::external_type_specification]
#[verifier::external_body]
pub struct ExTokenStream(proc_macro2::TokenStream);

/// A parsed impl block.
#[verifier::external_type_specification]
#[verifier::external_body]
pub struct ExItemImpl(syn::ItemImpl);

/// One segment of a type path.
#[verifier::external_type_specification]
#[verifier::external_body]
pub struct ExPathSegment(syn::PathSegment);

/// A function signature.
#[verifier::external_type_specification]
#[verifier::external_body]
pub struct ExSignature(syn::Signature);

/// What `syn::parse2::<syn::Meta>` makes of the attribute's tokens, read as `parse_attr` reads it.
pub uninterp spec fn attr_meta(attr: proc_macro2::TokenStream) -> MacroAttr;

/// What `syn::parse2::<syn::ItemImpl>` makes of the item's tokens: the impl block, or
/// the text of its error.
pub uninterp spec fn impl_parse(item: proc_macro2::TokenStream) -> Result<syn::ItemImpl, Seq<char>>;

/// The printed tokens of an impl's type.
pub uninterp spec fn type_text(item: syn::ItemImpl) -> Seq<char>;

/// The number of an impl's generic parameters.
pub uninterp spec fn generic_param_total(item: syn::ItemImpl) -> usize;

/// `None` when an impl's type is no path, else the last segment of the path (if any).
pub uninterp spec fn type_last_segment(item: syn::ItemImpl) -> Option<Option<syn::PathSegment>>;

/// A path segment's identifier.
pub uninterp spec fn segment_name(segment: syn::PathSegment) -> Seq<char>;

/// The number of a path segment's angle-bracketed generic arguments.
pub uninterp spec fn segment_arg_total(segment: syn::PathSegment) -> usize;

/// The kind of a path segment's angle-bracketed generic argument at an index.
pub uninterp spec fn segment_arg_kind(segment: syn::PathSegment, i: usize) -> Option<GenericArg>;

/// The number of an impl's items.
pub uninterp spec fn item_total(item: syn::ItemImpl) -> usize;

/// The signature of an impl's item at an index, when that item is a function.
pub uninterp spec fn item_fn_signature(item: syn::ItemImpl, i: usize) -> Option<syn::Signature>;

/// A signature's function name.
pub uninterp spec fn signature_ident(sig: syn::Signature) -> Seq<char>;

/// Whether a signature declares a return type.
pub uninterp spec fn signature_has_output(sig: syn::Signature) -> bool;

/// Whether a signature is `async`.
pub uninterp spec fn signature_asyncness(sig: syn::Signature) -> bool;

/// The number of a signature's inputs.
pub uninterp spec fn signature_input_total(sig: syn::Signature) -> usize;

/// A signature's input at an index, read as `signature_input` reads it.
pub uninterp spec fn signature_input_at(sig: syn::Signature, j: usize) -> Option<FnInput>;

/// `syn::parse2::<syn::Meta>` on the attribute's tokens: `Unparsed` when they are no
/// meta item, `Path` with the identifier that `Path::get_ident` gives (if any), and
/// `Other` for any other meta item.
#[verifier::external_body]
pub(crate) fn parse_attr(attr: proc_macro2::TokenStream) -> (a: MacroAttr)
    ensures
        a == attr_meta(attr),
{
    match syn::parse2::<syn::Meta>(attr) {
        Err(_) => MacroAttr::Unparsed,
        Ok(syn::Meta::Path(path)) => match path.get_ident() {
            Some(ident) => MacroAttr::Path(Some(ident.to_string())),
            None => MacroAttr::Path(None),
        },
        Ok(_) => MacroAttr::Other,
    }
}

/// `syn::parse2::<syn::ItemImpl>` on the item's tokens; a refusal comes back as the
/// text of `syn`'s error.
#[verifier::external_body]
pub(crate) fn parse_item_impl(item: proc_macro2::TokenStream) -> (r: Result<syn::ItemImpl, String>)
    ensures
        match r {
            Ok(ast) => impl_parse(item) == Ok::<syn::ItemImpl, Seq<char>>(ast),
            Err(text) => impl_parse(item) == Err::<syn::ItemImpl, Seq<char>>(text@),
        },
{
    match syn::parse2::<syn::ItemImpl>(item) {
        Ok(ast) => Ok(ast),
        Err(e) => Err(e.to_string()),
    }
}

/// The tokens of the impl's type (`ToTokens::to_token_stream`), printed.
#[verifier::external_body]
fn self_type_text(item: &syn::ItemImpl) -> (s: String)
    ensures
        s@ == type_text(*item),
{
    item.self_ty.to_token_stream().to_string()
}

/// The number of generic parameters that the impl declares.
#[verifier::external_body]
fn generic_param_count(item: &syn::ItemImpl) -> (n: usize)
    ensures
        n == generic_param_total(*item),
{
    item.generics.params.len()
}

/// `None` when the impl's type is no path; else (a clone of) the last segment of the
/// path, if any.
#[verifier::external_body]
fn self_type_last_segment(item: &syn::ItemImpl) -> (r: Option<Option<syn::PathSegment>>)
    ensures
        r == type_last_segment(*item),
{
    match &*item.self_ty {
        syn::Type::Path(type_path) => Some(type_path.path.segments.last().cloned()),
        _ => None,
    }
}

/// A path segment's identifier.
#[verifier::external_body]
fn segment_ident(segment: &syn::PathSegment) -> (s: String)
    ensures
        s@ == segment_name(*segment),
{
    segment.ident.to_string()
}

/// The number of a path segment's angle-bracketed generic arguments (0 without angle
/// brackets).
#[verifier::external_body]
fn segment_arg_count(segment: &syn::PathSegment) -> (n: usize)
    ensures
        n == segment_arg_total(*segment),
{
    match &segment.arguments {
        syn::PathArguments::AngleBracketed(args) => args.args.len(),
        _ => 0,
    }
}

/// The kind of a path segment's angle-bracketed generic argument at index `i`; there
/// is one exactly below the count of those arguments.
#[verifier::external_body]
fn segment_arg(segment: &syn::PathSegment, i: usize) -> (a: Option<GenericArg>)
    ensures
        a == segment_arg_kind(*segment, i),
        a is Some <==> i < segment_arg_total(*segment),
{
    match &segment.arguments {
        syn::PathArguments::AngleBracketed(args) => match args.args.iter().nth(i) {
            Some(syn::GenericArgument::Type(_)) => Some(GenericArg::Type),
            Some(syn::GenericArgument::Lifetime(_)) => Some(GenericArg::Lifetime),
            Some(_) => Some(GenericArg::Other),
            None => None,
        },
        _ => None,
    }
}

/// The number of items in the impl block.
#[verifier::external_body]
fn item_count(item: &syn::ItemImpl) -> (n: usize)
    ensures
        n == item_total(*item),
{
    item.items.len()
}

/// (A clone of) the signature of the item at index `i` when that item is a function.
#[verifier::external_body]
fn item_signature(item: &syn::ItemImpl, i: usize) -> (r: Option<syn::Signature>)
    ensures
        r == item_fn_signature(*item, i),
{
    match item.items.get(i) {
        Some(syn::ImplItem::Fn(method)) => Some(method.sig.clone()),
        _ => None,
    }
}

/// A signature's function name.
#[verifier::external_body]
fn signature_name(sig: &syn::Signature) -> (s: String)
    ensures
        s@ == signature_ident(*sig),
{
    sig.ident.to_string()
}

/// Whether a signature declares a return type.
#[verifier::external_body]
fn signature_returns_value(sig: &syn::Signature) -> (b: bool)
    ensures
        b == signature_has_output(*sig),
{
    match sig.output {
        syn::ReturnType::Type(..) => true,
        syn::ReturnType::Default => false,
    }
}

/// Whether a signature is `async`.
#[verifier::external_body]
fn signature_is_async(sig: &syn::Signature) -> (b: bool)
    ensures
        b == signature_asyncness(*sig),
{
    sig.asyncness.is_some()
}

/// The number of a signature's inputs.
#[verifier::external_body]
fn signature_input_count(sig: &syn::Signature) -> (n: usize)
    ensures
        n == signature_input_total(*sig),
{
    sig.inputs.len()
}

/// A signature's input at index `j`: a receiver with whether it is a reference and
/// whether it has an explicit type, or a typed input with its identifier when its
/// pattern is one; there is one exactly below the count of inputs.
#[verifier::external_body]
fn signature_input(sig: &syn::Signature, j: usize) -> (r: Option<FnInput>)
    ensures
        r == signature_input_at(*sig, j),
        r is Some <==> j < signature_input_total(*sig),
{
    match sig.inputs.iter().nth(j) {
        Some(syn::FnArg::Receiver(rec)) => Some(
            FnInput::Receiver { reference: rec.reference.is_some(), colon: rec.colon_token.is_some() },
        ),
        Some(syn::FnArg::Typed(typed)) => Some(FnInput::Typed { ident: match &*typed.pat {
            syn::Pat::Ident(pat) => Some(pat.ident.to_string()),
            _ => None,
        } }),
        None => None,
    }
}

/// `t` is the model of the type of the impl `item`.
pub open spec fn self_type_models(t: SelfType, item: syn::ItemImpl) -> bool {
    match type_last_segment(item) {
        None => t == SelfType::Other,
        Some(None) => t == SelfType::Path(None),
        Some(Some(segment)) => t matches SelfType::Path(Some(end)) && end.ident@ == segment_name(
            segment,
        ) && end.args@ == Seq::new(
            segment_arg_total(segment) as nat,
            |i: int| segment_arg_kind(segment, i as usize)->0,
        ),
    }
}

/// `m` is the model of the signature `sig`.
pub open spec fn method_models(m: MethodSig, sig: syn::Signature) -> bool {
    &&& m.name@ == signature_ident(sig)
    &&& m.inputs@ == Seq::new(
        signature_input_total(sig) as nat,
        |j: int| signature_input_at(sig, j as usize)->0,
    )
    &&& m.returns_value == signature_has_output(sig)
    &&& m.is_async == signature_asyncness(sig)
}

/// `it` is the model of an item whose function signature (if it is a function) is `sig`.
pub open spec fn item_models(it: ImplItem, sig: Option<syn::Signature>) -> bool {
    match sig {
        Some(s) => it matches ImplItem::Method(m) && method_models(m, s),
        None => it == ImplItem::Other,
    }
}

/// `b` is the model of the parsed impl block `item`: its type, the type's tokens,
/// whether it declares generic parameters, and each of its items in order.
pub open spec fn impl_models(b: ImplBlock, item: syn::ItemImpl) -> bool {
    &&& self_type_models(b.self_ty, item)
    &&& b.self_ty_tokens@ == type_text(item)
    &&& b.has_generics == (generic_param_total(item) > 0)
    &&& b.items@.len() == item_total(item)
    &&& forall|i: int|
        0 <= i < b.items@.len() ==> #[trigger] item_models(
            b.items@[i],
            item_fn_signature(item, i as usize),
        )
}

fn read_self_type(item: &syn::ItemImpl) -> (t: SelfType)
    ensures
        self_type_models(t, *item),
{
    match self_type_last_segment(item) {
        None => SelfType::Other,
        Some(None) => SelfType::Path(None),
        Some(Some(segment)) => {
            let n = segment_arg_count(&segment);
            let mut args: Vec<GenericArg> = Vec::new();
            for i in 0..n
                invariant
                    n == segment_arg_total(segment),
                    args@ == Seq::new(i as nat, |k: int| segment_arg_kind(segment, k as usize)->0),
            {
                if let Some(arg) = segment_arg(&segment, i) {
                    args.push(arg);
                }
                assert(args@ =~= Seq::new((i + 1) as nat, |k: int| segment_arg_kind(segment, k as usize)->0));
            }
            SelfType::Path(Some(PathEnd { ident: segment_ident(&segment), args }))
        },
    }
}

fn read_method(sig: &syn::Signature) -> (m: MethodSig)
    ensures
        method_models(m, *sig),
{
    let n = signature_input_count(sig);
    let mut inputs: Vec<FnInput> = Vec::new();
    for j in 0..n
        invariant
            n == signature_input_total(*sig),
            inputs@ == Seq::new(j as nat, |k: int| signature_input_at(*sig, k as usize)->0),
    {
        if let Some(input) = signature_input(sig, j) {
            inputs.push(input);
        }
        assert(inputs@ =~= Seq::new((j + 1) as nat, |k: int| signature_input_at(*sig, k as usize)->0));
    }
    MethodSig {
        name: signature_name(sig),
        inputs,
        returns_value: signature_returns_value(sig),
        is_async: signature_is_async(sig),
    }
}

/// The model of a parsed impl block.
pub(crate) fn read_impl_block(item: &syn::ItemImpl) -> (b: ImplBlock)
    ensures
        impl_models(b, *item),
{
    let n = item_count(item);
    let mut items: Vec<ImplItem> = Vec::new();
    for i in 0..n
        invariant
            n == item_total(*item),
            items@.len() == i,
            forall|k: int|
                0 <= k < i ==> #[trigger] item_models(items@[k], item_fn_signature(*item, k as usize)),
    {
        match item_signature(item, i) {
            Some(sig) => items.push(ImplItem::Method(read_method(&sig))),
            None => items.push(ImplItem::Other),
        }
    }
    ImplBlock {
        self_ty: read_self_type(item),
        self_ty_tokens: self_type_text(item),
        has_generics: generic_param_count(item) > 0,
        items,
    }
}

} // verus!
