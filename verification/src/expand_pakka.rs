//! The `messages` attribute for the `pakka` paths, which reads no argument: the same
//! decisions about methods and names, with a bounded mailbox always, and a phantom
//! variant over the impl's own generic parameters in place of phantom fields for the
//! type's arguments.
use crate::expand::{
    actor_name, build_plan, plan_for, planned_from, unparsable, unparsable_prefix, ExpandError,
    ExpansionPlan, ImplBlock, MacroAttr, MacroError, Mode,
};
use crate::syntax::{impl_models, impl_parse, parse_item_impl, read_impl_block};
use vstd::prelude::*;

verus! {

/// What the `pakka` attribute makes of `item`; its argument is not read.
pub fn messages(_attr: &MacroAttr, item: &ImplBlock) -> (res: Result<ExpansionPlan, MacroError>)
    ensures
        match actor_name(item.self_ty) {
            Err(e) => res == Err::<ExpansionPlan, MacroError>(e),
            Ok(name) => res is Ok && plan_for(
                res->Ok_0,
                Mode::Bounded,
                name,
                *item,
                Seq::empty(),
            ),
        },
{
    build_plan(Mode::Bounded, item, Vec::new())
}

/// The `pakka` attribute on the raw tokens of the item (its argument is not read):
/// parses the item as an impl block (an item that does not parse is refused with
/// `syn`'s error text), reads its model and plans it.
pub fn messages_from_tokens(
    _attr: proc_macro2::TokenStream,
    item: proc_macro2::TokenStream,
) -> (r: (Option<(syn::ItemImpl, ImplBlock)>, Result<ExpansionPlan, ExpandError>))
    ensures
        match r.0 {
            None => impl_parse(item) is Err && (r.1 matches Err(ExpandError::Unparsable(text))
                && text@ == unparsable_prefix() + impl_parse(item)->Err_0),
            Some((ast, block)) => {
                &&& impl_parse(item) == Ok::<syn::ItemImpl, Seq<char>>(ast)
                &&& impl_models(block, ast)
                &&& planned_from(block, Mode::Bounded, Seq::empty(), r.1)
            },
        },
{
    let parsed = match parse_item_impl(item) {
        Ok(ast) => ast,
        Err(text) => {
            let e = unparsable(text);
            return (None, Err(e));
        },
    };
    let block = read_impl_block(&parsed);
    let plan = match messages(&MacroAttr::Unparsed, &block) {
        Ok(plan) => Ok(plan),
        Err(e) => Err(ExpandError::Refused(e)),
    };
    (Some((parsed, block)), plan)
}

} // verus!
