//! The Gemini protocol's way to name a model.
use crate::text::{find, lemma_found_behind, lemma_position, occurs_at, part, position};
use vstd::prelude::*;
use vstd::string::*;

verus! {

/// The model that the path of a request names: what stands before the colon that a method
/// follows, such as `streamGenerateContent`.
pub open spec fn model_in_path(path: Seq<char>) -> Seq<char> {
    match position(path, ":"@) {
        Some(k) => path.take(k),
        None => path,
    }
}

/// The model that the path of a request names.
pub fn normalized_model(path: &str) -> (r: String)
    ensures
        r@ == model_in_path(path@),
{
    match find(path, ":") {
        Some(k) => {
            let r: String = part(path, 0, k);
            assert(r@ == path@.take(k as int));
            r
        },
        None => path.to_owned(),
    }
}

/// A model's name holds no colon, so that to take it out of the path a second time changes
/// nothing.
pub proof fn law_model_has_no_method(path: Seq<char>)
    ensures
        !model_in_path(path).contains(':'),
        model_in_path(model_in_path(path)) == model_in_path(path),
        model_in_path(path).is_prefix_of(path),
{
    let model = model_in_path(path);
    reveal_strlit(":");
    assert(":"@ =~= seq![':']);
    lemma_position(path, ":"@);
    lemma_position(model, ":"@);
    if model.contains(':') {
        let i = choose|i: int| 0 <= i < model.len() && model[i] == ':';
        assert(path[i] == ':');
        assert(path.subrange(i, i + 1) =~= ":"@);
        assert(occurs_at(path, ":"@, i));
    }
    if let Some(k) = position(model, ":"@) {
        assert(model.subrange(k, k + 1)[0] == ':');
        assert(model[k] == ':');
    }
}

/// The model is all that stands before the first colon, or the whole path where there is none.
pub proof fn law_model_is_whole(model: Seq<char>, method: Seq<char>)
    requires
        !model.contains(':'),
    ensures
        model_in_path(model) == model,
        model_in_path(model + ":"@ + method) == model,
{
    reveal_strlit(":");
    assert(":"@ =~= seq![':']);
    lemma_position(model, ":"@);
    if let Some(k) = position(model, ":"@) {
        assert(model.subrange(k, k + 1)[0] == ':');
        assert(model[k] == ':');
    }
    lemma_found_behind(model, ":"@, method);
    assert((model + ":"@ + method).take(model.len() as int) =~= model);
}

} // verus!
