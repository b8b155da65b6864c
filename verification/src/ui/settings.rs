//! The settings panel: the server path, the model library, and the forms
//! that add and edit models, with the rules a form must meet.

use vstd::prelude::*;
use crate::config::Config;
use crate::models::{ModelConfig, ModelView, models_view};
use crate::text::{is_unicode_space, push_char, push_radix, radix_digits, spec_trim, trim_back, trim_front, trim_text};

verus! {

/// Form for adding a new model.
#[derive(Clone, Debug)]
pub struct AddModelForm {
    pub name: String,
    pub description: String,
    pub args: String,
}

impl AddModelForm {
    /// An empty form.
    pub fn new() -> (form: Self)
        ensures
            form.name@.len() == 0,
            form.description@.len() == 0,
            form.args@.len() == 0,
    {
        AddModelForm { name: String::new(), description: String::new(), args: String::new() }
    }
}

/// Form for editing an existing model.
#[derive(Clone, Debug)]
pub struct EditModelForm {
    pub name: String,
    pub description: String,
    pub args: String,
}

impl EditModelForm {
    /// A form filled with a model's current fields.
    pub fn from_model(m: &ModelConfig) -> (form: Self)
        ensures
            form.name == m.name,
            form.description == m.description,
            form.args == m.args,
    {
        EditModelForm { name: m.name.clone(), description: m.description.clone(), args: m.args.clone() }
    }
}

/// What the text fields of a form say.
pub struct FormView {
    pub name: Seq<char>,
    pub description: Seq<char>,
    pub args: Seq<char>,
}

impl View for AddModelForm {
    type V = FormView;

    open spec fn view(&self) -> FormView {
        FormView { name: self.name@, description: self.description@, args: self.args@ }
    }
}

impl View for EditModelForm {
    type V = FormView;

    open spec fn view(&self) -> FormView {
        FormView { name: self.name@, description: self.description@, args: self.args@ }
    }
}

/// Why a form was refused.
#[derive(Clone, Debug)]
pub enum FormError {
    /// The name is empty, or the arguments are blank.
    EmptyFields,
    /// The name holds only whitespace (the arguments are not blank).
    BlankName,
    /// Another model already has this (trimmed) name.
    DuplicateName(String),
}

/// The verdict on a form, before anything is changed.
#[derive(Clone, Copy, Debug)]
pub enum FormCheck {
    Accepted,
    EmptyFields,
    BlankName,
    DuplicateName,
}

/// Whether a model other than the one at position `skip` has this name.
pub open spec fn name_taken(models: Seq<ModelView>, name: Seq<char>, skip: int) -> bool {
    exists|i: int| 0 <= i < models.len() && i != skip && (#[trigger] models[i]).name == name
}

/// The verdict on a form with this name and these arguments, for a model
/// library in which the edited model (if any) is at position `skip`:
/// the trimmed name and trimmed arguments must both be non-empty and the
/// trimmed name must be free. A refused form is `EmptyFields` when the name
/// is empty (untrimmed) or the arguments are blank, else `BlankName`.
pub open spec fn check_form(models: Seq<ModelView>, name: Seq<char>, args: Seq<char>, skip: int) -> FormCheck {
    let trimmed_name = spec_trim(name);
    let trimmed_args = spec_trim(args);
    if trimmed_name.len() > 0 && trimmed_args.len() > 0 {
        if name_taken(models, trimmed_name, skip) {
            FormCheck::DuplicateName
        } else {
            FormCheck::Accepted
        }
    } else if name.len() == 0 || trimmed_args.len() == 0 {
        FormCheck::EmptyFields
    } else {
        FormCheck::BlankName
    }
}

/// How a form's verdict is reported: `Ok` when accepted, else the matching
/// error, a duplicate carrying the trimmed name.
pub open spec fn reports(r: Result<(), FormError>, check: FormCheck, name: Seq<char>) -> bool {
    match r {
        Ok(()) => check is Accepted,
        Err(FormError::EmptyFields) => check is EmptyFields,
        Err(FormError::BlankName) => check is BlankName,
        Err(FormError::DuplicateName(n)) => check is DuplicateName && n@ == spec_trim(name),
    }
}

/// The identifier given to a model added with random number `n`:
/// `model_` and `n` in decimal.
pub open spec fn model_id_text(n: u32) -> Seq<char> {
    seq!['m', 'o', 'd', 'e', 'l', '_'] + radix_digits(n as nat, 10)
}

/// The model a form describes, with the given identifier: name, description
/// and arguments trimmed.
pub open spec fn form_model(id: Seq<char>, name: Seq<char>, description: Seq<char>, args: Seq<char>) -> ModelView {
    ModelView { id, name: spec_trim(name), description: spec_trim(description), args: spec_trim(args) }
}

/// The model library after an accepted add form, the new model having
/// identifier `id`.
pub open spec fn library_after_add(
    models: Seq<ModelView>,
    id: Seq<char>,
    name: Seq<char>,
    description: Seq<char>,
    args: Seq<char>,
) -> Seq<ModelView> {
    models.push(form_model(id, name, description, args))
}

/// Whether some model has identifier `id`.
pub open spec fn id_taken(models: Seq<ModelView>, id: Seq<char>) -> bool {
    exists|i: int| 0 <= i < models.len() && (#[trigger] models[i]).id == id
}

/// Whether `id` is an identifier the launcher may give to a model added to
/// `models`: `model_` and a number in decimal, followed by more text only
/// when `model_` and that number is already some model's identifier.
pub open spec fn is_model_id(models: Seq<ModelView>, id: Seq<char>) -> bool {
    exists|n: u32, tail: Seq<char>| id == model_id_text(n) + tail && (tail.len() > 0 ==> id_taken(models, model_id_text(n)))
}

/// The longest identifier in the library.
pub open spec fn max_id_len(models: Seq<ModelView>) -> nat
    decreases models.len(),
{
    if models.len() == 0 {
        0
    } else {
        let rest = max_id_len(models.drop_last());
        if models.last().id.len() > rest { models.last().id.len() } else { rest }
    }
}

/// Whether every identifier in the library is different.
pub open spec fn ids_unique(models: Seq<ModelView>) -> bool {
    forall|i: int, j: int| 0 <= i < models.len() && 0 <= j < models.len() && i != j ==> models[i].id != models[j].id
}

/// The model library after an accepted edit of the model at `idx`: the
/// model keeps its identifier, the rest comes from the form.
pub open spec fn library_after_edit(
    models: Seq<ModelView>,
    idx: int,
    name: Seq<char>,
    description: Seq<char>,
    args: Seq<char>,
) -> Seq<ModelView> {
    models.update(idx, form_model(models[idx].id, name, description, args))
}

/// The elements of `s` whose positions are not marked, in order.
pub open spec fn without_positions<T>(s: Seq<T>, marked: Set<int>) -> Seq<T>
    decreases s.len(),
{
    if s.len() == 0 {
        s
    } else if marked.contains(s.len() - 1) {
        without_positions(s.drop_last(), marked)
    } else {
        without_positions(s.drop_last(), marked).push(s.last())
    }
}

/// The positions listed in `indices`.
pub open spec fn index_set(indices: Seq<usize>) -> Set<int> {
    Set::new(|p: int| exists|k: int| 0 <= k < indices.len() && indices[k] == p)
}

/// The positions listed in `indices` from entry `from` on.
pub open spec fn index_set_from(indices: Seq<usize>, from: int) -> Set<int> {
    Set::new(|p: int| exists|k: int| from <= k < indices.len() && indices[k] == p)
}

/// Whether every name in the library is different.
pub open spec fn names_unique(models: Seq<ModelView>) -> bool {
    forall|i: int, j: int| 0 <= i < models.len() && 0 <= j < models.len() && i != j ==> models[i].name != models[j].name
}

/// A random 32-bit number.
/// Calls `rand::random::<u32>()`; the value depends on chance, so nothing is
/// said of it.
#[verifier::external_body]
fn random_u32() -> u32 {
    rand::random::<u32>()
}

/// The identifier for a model added with random number `n`.
pub fn model_id_from(n: u32) -> (id: String)
    ensures
        id@ == model_id_text(n),
{
    let mut id = String::new();
    push_char(&mut id, 'm');
    push_char(&mut id, 'o');
    push_char(&mut id, 'd');
    push_char(&mut id, 'e');
    push_char(&mut id, 'l');
    push_char(&mut id, '_');
    push_radix(&mut id, n as u64, 10);
    assert(id@ =~= model_id_text(n));
    id
}

proof fn lemma_none_marked<T>(s: Seq<T>, marked: Set<int>)
    requires
        forall|m: int| marked.contains(m) ==> m >= s.len(),
    ensures
        without_positions(s, marked) == s,
    decreases s.len(),
{
    if s.len() > 0 {
        lemma_none_marked(s.drop_last(), marked);
        assert(s.drop_last().push(s.last()) =~= s);
    }
}

proof fn lemma_prefix_kept<T>(s: Seq<T>, marked: Set<int>, q: int)
    requires
        0 <= q < s.len(),
        forall|m: int| marked.contains(m) ==> m > q,
    ensures
        without_positions(s, marked).len() > q,
        forall|i: int| 0 <= i <= q ==> #[trigger] without_positions(s, marked)[i] == s[i],
    decreases s.len(),
{
    let front = s.drop_last();
    if s.len() - 1 == q {
        lemma_none_marked(front, marked);
    } else {
        lemma_prefix_kept(front, marked, q);
    }
}

proof fn lemma_remove_marked<T>(s: Seq<T>, marked: Set<int>, p: int)
    requires
        0 <= p < s.len(),
        forall|m: int| marked.contains(m) ==> m > p,
    ensures
        without_positions(s, marked).remove(p) == without_positions(s, marked.insert(p)),
    decreases s.len(),
{
    let front = s.drop_last();
    let last = s.len() - 1;
    if last == p {
        lemma_none_marked(front, marked);
        lemma_none_marked(front, marked.insert(p));
        assert(front.push(s.last()).remove(p) =~= front);
    } else {
        lemma_remove_marked(front, marked, p);
        if !marked.contains(last) {
            lemma_prefix_kept(front, marked, p);
            let f = without_positions(front, marked);
            assert(f.push(s.last()).remove(p) =~= f.remove(p).push(s.last()));
        }
    }
}

proof fn lemma_id_len_bound(models: Seq<ModelView>, i: int)
    requires
        0 <= i < models.len(),
    ensures
        models[i].id.len() <= max_id_len(models),
    decreases models.len(),
{
    if i < models.len() - 1 {
        lemma_id_len_bound(models.drop_last(), i);
        assert(models.drop_last()[i] == models[i]);
    }
}

proof fn lemma_longer_id_is_free(models: Seq<ModelView>)
    ensures
        forall|t: Seq<char>| t.len() > max_id_len(models) ==> !id_taken(models, t),
{
    assert forall|t: Seq<char>| t.len() > max_id_len(models) implies !id_taken(models, t) by {
        if id_taken(models, t) {
            let i = choose|i: int| 0 <= i < models.len() && (#[trigger] models[i]).id == t;
            lemma_id_len_bound(models, i);
        }
    }
}

proof fn lemma_trim_front_all_space(s: Seq<char>)
    requires
        forall|i: int| 0 <= i < s.len() ==> is_unicode_space(#[trigger] s[i]),
    ensures
        trim_front(s).len() == 0,
    decreases s.len(),
{
    if s.len() > 0 {
        let t = s.drop_first();
        assert forall|i: int| 0 <= i < t.len() implies is_unicode_space(#[trigger] t[i]) by {
            assert(t[i] == s[i + 1]);
        }
        assert(is_unicode_space(s[0]));
        lemma_trim_front_all_space(t);
    }
}

/// A form whose arguments are empty or only whitespace is never accepted:
/// whatever the library, name and position, its verdict is `EmptyFields`
/// (so adding or saving it is refused with that error and changes nothing).
pub proof fn law_blank_args_refused(models: Seq<ModelView>, name: Seq<char>, args: Seq<char>, skip: int)
    requires
        forall|i: int| 0 <= i < args.len() ==> is_unicode_space(#[trigger] args[i]),
    ensures
        check_form(models, name, args, skip) is EmptyFields,
{
    lemma_trim_front_all_space(args);
    assert(trim_back(trim_front(args)).len() == 0);
}

/// Every model an accepted add puts in the library has a non-empty name
/// and non-empty arguments, both free of surrounding whitespace.
pub proof fn law_added_model_has_args(
    models: Seq<ModelView>,
    id: Seq<char>,
    name: Seq<char>,
    description: Seq<char>,
    args: Seq<char>,
)
    requires
        check_form(models, name, args, -1) is Accepted,
    ensures
        library_after_add(models, id, name, description, args).last().args.len() > 0,
        library_after_add(models, id, name, description, args).last().name.len() > 0,
        library_after_add(models, id, name, description, args).last().args == spec_trim(args),
        library_after_add(models, id, name, description, args).last().name == spec_trim(name),
{
}

/// Every model an accepted edit leaves in the library has a non-empty name
/// and non-empty arguments, both free of surrounding whitespace.
pub proof fn law_edited_model_has_args(
    models: Seq<ModelView>,
    idx: int,
    name: Seq<char>,
    description: Seq<char>,
    args: Seq<char>,
)
    requires
        0 <= idx < models.len(),
        check_form(models, name, args, idx) is Accepted,
    ensures
        library_after_edit(models, idx, name, description, args)[idx].args.len() > 0,
        library_after_edit(models, idx, name, description, args)[idx].name.len() > 0,
        library_after_edit(models, idx, name, description, args)[idx].args == spec_trim(args),
{
}

/// Accepted add forms keep model names unique: if the names of a library
/// are all different and an add form is accepted for it, the names of the
/// library after the add are all different too.
pub proof fn law_add_keeps_names_unique(
    models: Seq<ModelView>,
    id: Seq<char>,
    name: Seq<char>,
    description: Seq<char>,
    args: Seq<char>,
)
    requires
        names_unique(models),
        check_form(models, name, args, -1) is Accepted,
    ensures
        names_unique(library_after_add(models, id, name, description, args)),
{
    let after = library_after_add(models, id, name, description, args);
    assert forall|i: int, j: int| 0 <= i < after.len() && 0 <= j < after.len() && i != j implies after[i].name != after[j].name by {
        if i == models.len() {
            assert(after[j] == models[j]);
            assert(!name_taken(models, spec_trim(name), -1));
        } else if j == models.len() {
            assert(after[i] == models[i]);
            assert(!name_taken(models, spec_trim(name), -1));
        } else {
            assert(after[i] == models[i] && after[j] == models[j]);
        }
    }
}

/// Accepted edit forms keep model names unique: if the names of a library
/// are all different and an edit form for the model at `idx` is accepted,
/// the names after the edit are all different too.
pub proof fn law_edit_keeps_names_unique(
    models: Seq<ModelView>,
    idx: int,
    name: Seq<char>,
    description: Seq<char>,
    args: Seq<char>,
)
    requires
        0 <= idx < models.len(),
        names_unique(models),
        check_form(models, name, args, idx) is Accepted,
    ensures
        names_unique(library_after_edit(models, idx, name, description, args)),
{
    let after = library_after_edit(models, idx, name, description, args);
    assert forall|i: int, j: int| 0 <= i < after.len() && 0 <= j < after.len() && i != j implies after[i].name != after[j].name by {
        if i == idx {
            assert(after[j] == models[j]);
            assert(!name_taken(models, spec_trim(name), idx));
        } else if j == idx {
            assert(after[i] == models[i]);
            assert(!name_taken(models, spec_trim(name), idx));
        } else {
            assert(after[i] == models[i] && after[j] == models[j]);
        }
    }
}

/// Saving an edit form that was opened on a model and left unchanged
/// leaves the library as it was, when the model's fields carry no
/// surrounding whitespace, its name and arguments are not empty, and no
/// other model shares its name.
pub proof fn law_unchanged_edit_is_identity(models: Seq<ModelView>, idx: int)
    requires
        0 <= idx < models.len(),
        spec_trim(models[idx].name) == models[idx].name,
        spec_trim(models[idx].description) == models[idx].description,
        spec_trim(models[idx].args) == models[idx].args,
        models[idx].name.len() > 0,
        models[idx].args.len() > 0,
        !name_taken(models, models[idx].name, idx),
    ensures
        check_form(models, models[idx].name, models[idx].args, idx) is Accepted,
        library_after_edit(models, idx, models[idx].name, models[idx].description, models[idx].args) == models,
{
    let m = models[idx];
    assert(form_model(m.id, m.name, m.description, m.args) == m);
    assert(library_after_edit(models, idx, m.name, m.description, m.args) =~= models);
}

/// Accepted add forms under a new identifier keep identifiers unique: if
/// the identifiers of a library are all different and a model is added
/// under an identifier no model has, they stay all different.
pub proof fn law_add_keeps_ids_unique(
    models: Seq<ModelView>,
    id: Seq<char>,
    name: Seq<char>,
    description: Seq<char>,
    args: Seq<char>,
)
    requires
        ids_unique(models),
        !id_taken(models, id),
    ensures
        ids_unique(library_after_add(models, id, name, description, args)),
{
    let after = library_after_add(models, id, name, description, args);
    assert forall|i: int, j: int| 0 <= i < after.len() && 0 <= j < after.len() && i != j implies after[i].id != after[j].id by {
        if i == models.len() {
            assert(after[j] == models[j]);
        } else if j == models.len() {
            assert(after[i] == models[i]);
        } else {
            assert(after[i] == models[i] && after[j] == models[j]);
        }
    }
}

/// Edits keep identifiers unique: the edited model keeps its identifier
/// and the others are untouched.
pub proof fn law_edit_keeps_ids_unique(
    models: Seq<ModelView>,
    idx: int,
    name: Seq<char>,
    description: Seq<char>,
    args: Seq<char>,
)
    requires
        0 <= idx < models.len(),
        ids_unique(models),
    ensures
        ids_unique(library_after_edit(models, idx, name, description, args)),
{
    let after = library_after_edit(models, idx, name, description, args);
    assert forall|i: int, j: int| 0 <= i < after.len() && 0 <= j < after.len() && i != j implies after[i].id != after[j].id by {
        assert(after[i].id == models[i].id && after[j].id == models[j].id);
    }
}

proof fn lemma_without_members<T>(s: Seq<T>, marked: Set<int>)
    ensures
        forall|k: int| 0 <= k < without_positions(s, marked).len() ==> exists|m: int|
            0 <= m < s.len() && s[m] == #[trigger] without_positions(s, marked)[k],
        without_positions(s, marked).len() <= s.len(),
    decreases s.len(),
{
    if s.len() > 0 {
        let front = s.drop_last();
        lemma_without_members(front, marked);
        let r = without_positions(s, marked);
        let f = without_positions(front, marked);
        assert forall|k: int| 0 <= k < r.len() implies exists|m: int| 0 <= m < s.len() && s[m] == #[trigger] r[k] by {
            if k < f.len() {
                assert(r[k] == f[k]);
                let m = choose|m: int| 0 <= m < front.len() && front[m] == f[k];
                assert(s[m] == front[m]);
            } else {
                assert(r[k] == s[s.len() - 1]);
            }
        }
    }
}

proof fn lemma_delete_keeps_unique(s: Seq<ModelConfig>, marked: Set<int>)
    ensures
        names_unique(models_view(s)) ==> names_unique(models_view(without_positions(s, marked))),
        ids_unique(models_view(s)) ==> ids_unique(models_view(without_positions(s, marked))),
    decreases s.len(),
{
    if s.len() > 0 {
        let front = s.drop_last();
        let v = models_view(s);
        let vf = models_view(front);
        assert(vf =~= v.drop_last());
        if names_unique(v) {
            assert(names_unique(vf)) by {
                assert forall|i: int, j: int| 0 <= i < vf.len() && 0 <= j < vf.len() && i != j implies vf[i].name != vf[j].name by {
                    assert(vf[i] == v[i] && vf[j] == v[j]);
                }
            }
        }
        if ids_unique(v) {
            assert(ids_unique(vf)) by {
                assert forall|i: int, j: int| 0 <= i < vf.len() && 0 <= j < vf.len() && i != j implies vf[i].id != vf[j].id by {
                    assert(vf[i] == v[i] && vf[j] == v[j]);
                }
            }
        }
        lemma_delete_keeps_unique(front, marked);
        if !marked.contains(s.len() - 1) {
            let f = without_positions(front, marked);
            let last = s.last();
            lemma_without_members(front, marked);
            let w = models_view(f.push(last));
            assert(w =~= models_view(f).push(last@));
            let wf = models_view(f);
            assert forall|k: int| 0 <= k < wf.len() implies (wf[k].name != last@.name || !names_unique(v))
                && (wf[k].id != last@.id || !ids_unique(v)) by {
                let m = choose|m: int| 0 <= m < front.len() && front[m] == #[trigger] f[k];
                assert(v[m] == front[m]@);
                assert(v[s.len() - 1] == last@);
            }
            if names_unique(v) {
                assert forall|i: int, j: int| 0 <= i < w.len() && 0 <= j < w.len() && i != j implies w[i].name != w[j].name by {
                    if i == wf.len() {
                        assert(w[j] == wf[j]);
                    } else if j == wf.len() {
                        assert(w[i] == wf[i]);
                    } else {
                        assert(w[i] == wf[i] && w[j] == wf[j]);
                    }
                }
            }
            if ids_unique(v) {
                assert forall|i: int, j: int| 0 <= i < w.len() && 0 <= j < w.len() && i != j implies w[i].id != w[j].id by {
                    if i == wf.len() {
                        assert(w[j] == wf[j]);
                    } else if j == wf.len() {
                        assert(w[i] == wf[i]);
                    } else {
                        assert(w[i] == wf[i] && w[j] == wf[j]);
                    }
                }
            }
        }
    }
}

/// Deleting keeps names and identifiers unique: whatever positions are
/// deleted, a library whose names (or identifiers) are all different still
/// has all different names (identifiers) afterwards.
pub proof fn law_delete_keeps_unique(s: Seq<ModelConfig>, indices: Seq<usize>)
    ensures
        names_unique(models_view(s)) ==> names_unique(models_view(without_positions(s, index_set(indices)))),
        ids_unique(models_view(s)) ==> ids_unique(models_view(without_positions(s, index_set(indices)))),
{
    lemma_delete_keeps_unique(s, index_set(indices));
}

proof fn lemma_delete_count(s: Seq<ModelConfig>, indices: Seq<usize>, from: int)
    requires
        0 <= from <= indices.len(),
        forall|a: int, b: int| 0 <= a < b < indices.len() ==> indices[a] < indices[b],
        forall|a: int| 0 <= a < indices.len() ==> indices[a] < s.len(),
    ensures
        without_positions(s, index_set_from(indices, from)).len() == s.len() - (indices.len() - from),
    decreases indices.len() - from,
{
    if from == indices.len() {
        lemma_none_marked(s, index_set_from(indices, from));
    } else {
        lemma_delete_count(s, indices, from + 1);
        let marked = index_set_from(indices, from + 1);
        let p = indices[from] as int;
        lemma_remove_marked(s, marked, p);
        lemma_prefix_kept(s, marked, p);
        assert(marked.insert(p) =~= index_set_from(indices, from));
    }
}

/// Deleting removes exactly one model per listed position: for positions
/// listed in increasing order, all within the library, the library after
/// deleting them is shorter by their number.
pub proof fn law_delete_removes_listed(s: Seq<ModelConfig>, indices: Seq<usize>)
    requires
        forall|a: int, b: int| 0 <= a < b < indices.len() ==> indices[a] < indices[b],
        forall|a: int| 0 <= a < indices.len() ==> indices[a] < s.len(),
    ensures
        without_positions(s, index_set(indices)).len() == s.len() - indices.len(),
{
    lemma_delete_count(s, indices, 0);
    assert(index_set_from(indices, 0) =~= index_set(indices));
}

/// What the user did in one frame of the settings panel: the models whose
/// Delete was clicked (positions in increasing order), the model whose Edit
/// was clicked, and the buttons "+ Add Model", Add, the add form's Cancel,
/// the edit form's Save and Cancel, and the final Save.
#[derive(Debug)]
pub struct SettingsClicks {
    pub delete: Vec<usize>,
    pub edit: Option<usize>,
    pub open_add: bool,
    pub add: bool,
    pub cancel_add: bool,
    pub save_edit: bool,
    pub cancel_edit: bool,
    pub save_all: bool,
}

/// What a frame of the settings panel asks of the caller: whether the
/// configuration must be written, and why an add or edit form was refused.
#[derive(Debug)]
pub struct SettingsFrameResult {
    pub save: bool,
    pub add_error: Option<FormError>,
    pub edit_error: Option<FormError>,
}

/// The fields of an empty form.
pub open spec fn empty_form_view() -> FormView {
    FormView { name: Seq::empty(), description: Seq::empty(), args: Seq::empty() }
}

/// What an open add form says, if one is open.
pub open spec fn add_form_view(form: Option<AddModelForm>) -> Option<FormView> {
    match form {
        Some(f) => Some(f@),
        None => None,
    }
}

/// What an open edit form says, with the position it edits, if one is open.
pub open spec fn edit_form_view(form: Option<(usize, EditModelForm)>) -> Option<(usize, FormView)> {
    match form {
        Some((i, f)) => Some((i, f@)),
        None => None,
    }
}

/// The library after the frame's deletions.
pub open spec fn frame_deleted(s: SettingsState, c: SettingsClicks) -> Seq<ModelConfig> {
    without_positions(s.models@, index_set(c.delete@))
}

/// The edit form after an Edit click: a click opens the form on that
/// model's fields unless a form is open already.
pub open spec fn frame_edit_opened(s: SettingsState, c: SettingsClicks) -> Option<(usize, FormView)> {
    match s.edit_model_form {
        Some((i, f)) => Some((i, f@)),
        None => match c.edit {
            Some(i) => {
                let m = frame_deleted(s, c)[i as int];
                Some((i, FormView { name: m.name@, description: m.description@, args: m.args@ }))
            },
            None => None,
        },
    }
}

/// The add form shown in the frame: "+ Add Model" opens an empty one.
pub open spec fn frame_add_form(s: SettingsState, c: SettingsClicks) -> Option<FormView> {
    if c.open_add {
        Some(empty_form_view())
    } else {
        add_form_view(s.add_model_form)
    }
}

/// The edit form shown in the frame: "+ Add Model" closes it.
pub open spec fn frame_edit_form(s: SettingsState, c: SettingsClicks) -> Option<(usize, FormView)> {
    if c.open_add {
        None
    } else {
        frame_edit_opened(s, c)
    }
}

/// Whether Add was clicked on a shown add form.
pub open spec fn frame_add_tried(s: SettingsState, c: SettingsClicks) -> bool {
    c.add && frame_add_form(s, c) is Some
}

/// The verdict on the shown add form, against the library after deletions.
pub open spec fn frame_add_check(s: SettingsState, c: SettingsClicks) -> FormCheck {
    let f = frame_add_form(s, c)->0;
    check_form(models_view(frame_deleted(s, c)), f.name, f.args, -1)
}

/// Whether the frame adds a model.
pub open spec fn frame_add_ok(s: SettingsState, c: SettingsClicks) -> bool {
    frame_add_tried(s, c) && frame_add_check(s, c) is Accepted
}

/// The library after the frame's add, the new model (if any) having
/// identifier `id`.
pub open spec fn frame_after_add(s: SettingsState, c: SettingsClicks, id: Seq<char>) -> Seq<ModelView> {
    let d = models_view(frame_deleted(s, c));
    if frame_add_ok(s, c) {
        let f = frame_add_form(s, c)->0;
        library_after_add(d, id, f.name, f.description, f.args)
    } else {
        d
    }
}

/// Whether Save was clicked on a shown edit form.
pub open spec fn frame_edit_tried(s: SettingsState, c: SettingsClicks) -> bool {
    c.save_edit && frame_edit_form(s, c) is Some
}

/// The verdict on the shown edit form, against the library after the add.
pub open spec fn frame_edit_check(s: SettingsState, c: SettingsClicks, id: Seq<char>) -> FormCheck {
    let (i, f) = frame_edit_form(s, c)->0;
    check_form(frame_after_add(s, c, id), f.name, f.args, i as int)
}

/// The library after the whole frame, the added model (if any) having
/// identifier `id`.
pub open spec fn frame_models(s: SettingsState, c: SettingsClicks, id: Seq<char>) -> Seq<ModelView> {
    let after = frame_after_add(s, c, id);
    if frame_edit_tried(s, c) && frame_edit_check(s, c, id) is Accepted {
        let (i, f) = frame_edit_form(s, c)->0;
        library_after_edit(after, i as int, f.name, f.description, f.args)
    } else {
        after
    }
}

/// The add form after the frame: closed by Cancel, or when an edit form is
/// shown (one form at a time).
pub open spec fn frame_final_add(s: SettingsState, c: SettingsClicks) -> Option<FormView> {
    if frame_edit_form(s, c) is Some || c.cancel_add {
        None
    } else {
        frame_add_form(s, c)
    }
}

/// The edit form after the frame: closed by its Cancel.
pub open spec fn frame_final_edit(s: SettingsState, c: SettingsClicks) -> Option<(usize, FormView)> {
    if c.cancel_edit {
        None
    } else {
        frame_edit_form(s, c)
    }
}

/// How a form's verdict is reported when it is reported as an optional
/// error: none when accepted, else the matching error.
pub open spec fn reports_opt(e: Option<FormError>, check: FormCheck, name: Seq<char>) -> bool {
    match e {
        None => check is Accepted,
        Some(err) => reports(Err(err), check, name),
    }
}

/// Whether the Delete positions are in increasing order and name models of
/// the library.
pub open spec fn deletions_ok(models: Seq<ModelConfig>, indices: Seq<usize>) -> bool {
    &&& forall|a: int, b: int| 0 <= a < b < indices.len() ==> indices[a] < indices[b]
    &&& forall|a: int| 0 <= a < indices.len() ==> indices[a] < models.len()
}

/// Whether the frame runs without an out-of-range position: an Edit click
/// that opens a form names a model left after the deletions, and a saved
/// edit form that is accepted names a model of the library it edits.
pub open spec fn frame_runs(s: SettingsState, c: SettingsClicks) -> bool {
    &&& (s.edit_model_form is None && c.edit is Some) ==> c.edit->0 < frame_deleted(s, c).len()
    &&& (frame_edit_tried(s, c) && frame_edit_check(s, c, Seq::empty()) is Accepted)
        ==> (frame_edit_form(s, c)->0).0 < frame_after_add(s, c, Seq::empty()).len()
}

proof fn lemma_after_add_names(s: SettingsState, c: SettingsClicks, a: Seq<char>, b: Seq<char>)
    ensures
        frame_after_add(s, c, a).len() == frame_after_add(s, c, b).len(),
        forall|i: int| 0 <= i < frame_after_add(s, c, a).len() ==>
            (#[trigger] frame_after_add(s, c, a)[i]).name == frame_after_add(s, c, b)[i].name,
        frame_edit_check(s, c, a) == frame_edit_check(s, c, b),
{
    let x = frame_after_add(s, c, a);
    let y = frame_after_add(s, c, b);
    assert forall|i: int| 0 <= i < x.len() implies (#[trigger] x[i]).name == y[i].name by {}
    {
        let (k, f) = frame_edit_form(s, c)->0;
        let n = spec_trim(f.name);
        assert(name_taken(x, n, k as int) == name_taken(y, n, k as int)) by {
            if name_taken(x, n, k as int) {
                let j = choose|j: int| 0 <= j < x.len() && j != k && (#[trigger] x[j]).name == n;
                assert(y[j].name == n);
            }
            if name_taken(y, n, k as int) {
                let j = choose|j: int| 0 <= j < y.len() && j != k && (#[trigger] y[j]).name == n;
                assert(x[j].name == n);
            }
        }
    }
}

/// At most one form is open after any frame of the settings panel.
pub proof fn law_frame_one_form_at_a_time(s: SettingsState, c: SettingsClicks)
    ensures
        !(frame_final_add(s, c) is Some && frame_final_edit(s, c) is Some),
{
}

/// A frame of the settings panel keeps model names unique, and keeps
/// identifiers unique when the added model's identifier is new.
pub proof fn law_frame_keeps_unique(s: SettingsState, c: SettingsClicks, id: Seq<char>)
    requires
        deletions_ok(s.models@, c.delete@),
        frame_runs(s, c),
    ensures
        names_unique(models_view(s.models@)) ==> names_unique(frame_models(s, c, id)),
        ids_unique(models_view(s.models@)) && (frame_add_ok(s, c) ==> !id_taken(models_view(frame_deleted(s, c)), id))
            ==> ids_unique(frame_models(s, c, id)),
{
    let d = models_view(frame_deleted(s, c));
    lemma_delete_keeps_unique(s.models@, index_set(c.delete@));
    lemma_after_add_names(s, c, id, Seq::empty());
    if frame_add_ok(s, c) {
        let f = frame_add_form(s, c)->0;
        if names_unique(d) {
            law_add_keeps_names_unique(d, id, f.name, f.description, f.args);
        }
        if ids_unique(d) && !id_taken(d, id) {
            law_add_keeps_ids_unique(d, id, f.name, f.description, f.args);
        }
    }
    let after = frame_after_add(s, c, id);
    if frame_edit_tried(s, c) && frame_edit_check(s, c, id) is Accepted {
        let (i, f) = frame_edit_form(s, c)->0;
        if names_unique(after) {
            law_edit_keeps_names_unique(after, i as int, f.name, f.description, f.args);
        }
        if ids_unique(after) {
            law_edit_keeps_ids_unique(after, i as int, f.name, f.description, f.args);
        }
    }
}

/// The settings being edited: the server path, the model library and the
/// open forms (at most one of each).
#[derive(Debug)]
pub struct SettingsState {
    pub llama_server_path: String,
    pub models: Vec<ModelConfig>,
    pub add_model_form: Option<AddModelForm>,
    pub edit_model_form: Option<(usize, EditModelForm)>,
}

impl SettingsState {
    /// The settings of a configuration, with no form open.
    pub fn from_config(config: &Config) -> (s: Self)
        ensures
            s.llama_server_path == config.llama_server_path,
            s.models@ == config.models@,
            s.add_model_form is None,
            s.edit_model_form is None,
    {
        let models = config.models.clone();
        assert(models@ =~= config.models@);
        SettingsState {
            llama_server_path: config.llama_server_path.clone(),
            models,
            add_model_form: None,
            edit_model_form: None,
        }
    }

    /// The configuration these settings describe.
    pub fn to_config(&self) -> (config: Config)
        ensures
            config.llama_server_path == self.llama_server_path,
            config.models@ == self.models@,
    {
        let models = self.models.clone();
        assert(models@ =~= self.models@);
        Config { llama_server_path: self.llama_server_path.clone(), models }
    }

    /// Copies the model library into a configuration, leaving its server
    /// path as it is (what adding or editing a model persists).
    pub fn store_models(&self, config: &mut Config)
        ensures
            final(config).llama_server_path == old(config).llama_server_path,
            final(config).models@ == self.models@,
    {
        let models = self.models.clone();
        assert(models@ =~= self.models@);
        config.models = models;
    }

    /// Opens an empty add form, closing the edit form: one form at a time.
    pub fn open_add_form(&mut self)
        ensures
            final(self).llama_server_path == old(self).llama_server_path,
            final(self).models@ == old(self).models@,
            final(self).edit_model_form is None,
            (final(self).add_model_form matches Some(f) && f.name@.len() == 0 && f.description@.len() == 0
                && f.args@.len() == 0),
    {
        self.edit_model_form = None;
        self.add_model_form = Some(AddModelForm::new());
    }

    /// Opens the edit form for the model at `idx`, filled with its fields,
    /// unless an edit form is already open.
    pub fn open_edit_form(&mut self, idx: usize)
        requires
            old(self).edit_model_form is None ==> idx < old(self).models@.len(),
        ensures
            final(self).llama_server_path == old(self).llama_server_path,
            final(self).models@ == old(self).models@,
            final(self).add_model_form == old(self).add_model_form,
            old(self).edit_model_form is Some ==> final(self).edit_model_form == old(self).edit_model_form,
            old(self).edit_model_form is None ==> (final(self).edit_model_form matches Some((i, f)) && i == idx
                && f.name == old(self).models@[idx as int].name && f.description == old(self).models@[idx as int].description
                && f.args == old(self).models@[idx as int].args),
    {
        if self.edit_model_form.is_none() {
            let form = EditModelForm::from_model(&self.models[idx]);
            self.edit_model_form = Some((idx, form));
        }
    }

    /// Closes the add form.
    pub fn close_add_form(&mut self)
        ensures
            final(self).llama_server_path == old(self).llama_server_path,
            final(self).models@ == old(self).models@,
            final(self).edit_model_form == old(self).edit_model_form,
            final(self).add_model_form is None,
    {
        self.add_model_form = None;
    }

    /// Closes the edit form.
    pub fn close_edit_form(&mut self)
        ensures
            final(self).llama_server_path == old(self).llama_server_path,
            final(self).models@ == old(self).models@,
            final(self).add_model_form == old(self).add_model_form,
            final(self).edit_model_form is None,
    {
        self.edit_model_form = None;
    }

    /// Whether a model other than the one at `skip` is named `name`.
    fn has_name(&self, name: &String, skip: usize, skipping: bool) -> (taken: bool)
        ensures
            taken == name_taken(models_view(self.models@), name@, if skipping { skip as int } else { -1 }),
    {
        let ghost view = models_view(self.models@);
        let ghost skip_at: int = if skipping { skip as int } else { -1 };
        let n = self.models.len();
        let mut i: usize = 0;
        while i < n
            invariant
                n == self.models@.len(),
                i <= n,
                view == models_view(self.models@),
                skip_at == (if skipping { skip as int } else { -1 }),
                forall|k: int| 0 <= k < i && k != skip_at ==> view[k].name != name@,
            decreases n - i,
        {
            if !(skipping && i == skip) && self.models[i].name == *name {
                assert(view[i as int].name == name@);
                return true;
            }
            i = i + 1;
        }
        assert(!name_taken(view, name@, skip_at)) by {
            if name_taken(view, name@, skip_at) {
                let k = choose|k: int| 0 <= k < view.len() && k != skip_at && (#[trigger] view[k]).name == name@;
                assert(view[k].name != name@);
            }
        }
        false
    }

    /// Adds the model described by an add form, under identifier `id`, if
    /// the form is accepted; a refused form changes nothing.
    pub fn add_model_with_id(&mut self, form: &AddModelForm, id: String) -> (r: Result<(), FormError>)
        ensures
            reports(r, check_form(models_view(old(self).models@), form.name@, form.args@, -1), form.name@),
            r is Ok ==> models_view(final(self).models@) == library_after_add(
                models_view(old(self).models@), id@, form.name@, form.description@, form.args@),
            r is Err ==> final(self).models@ == old(self).models@,
            final(self).llama_server_path == old(self).llama_server_path,
            final(self).add_model_form == old(self).add_model_form,
            final(self).edit_model_form == old(self).edit_model_form,
    {
        let trimmed = trim_text(form.name.as_str());
        let trimmed_args = trim_text(form.args.as_str());
        if !trimmed.as_str().is_empty() && !trimmed_args.as_str().is_empty() {
            if self.has_name(&trimmed, 0, false) {
                Err(FormError::DuplicateName(trimmed))
            } else {
                let ghost id_text = id@;
                let description = trim_text(form.description.as_str());
                let ghost before = models_view(self.models@);
                self.models.push(ModelConfig { id, name: trimmed, description, args: trimmed_args });
                assert(models_view(self.models@) =~= library_after_add(
                    before, id_text, form.name@, form.description@, form.args@));
                Ok(())
            }
        } else if form.name.as_str().is_empty() || trimmed_args.as_str().is_empty() {
            Err(FormError::EmptyFields)
        } else {
            Err(FormError::BlankName)
        }
    }

    /// The verdict on an add form, without changing anything.
    pub fn check_add(&self, form: &AddModelForm) -> (c: FormCheck)
        ensures
            c == check_form(models_view(self.models@), form.name@, form.args@, -1),
    {
        let trimmed_name = trim_text(form.name.as_str());
        let trimmed_args = trim_text(form.args.as_str());
        if !trimmed_name.as_str().is_empty() && !trimmed_args.as_str().is_empty() {
            if self.has_name(&trimmed_name, 0, false) {
                FormCheck::DuplicateName
            } else {
                FormCheck::Accepted
            }
        } else if form.name.as_str().is_empty() || trimmed_args.as_str().is_empty() {
            FormCheck::EmptyFields
        } else {
            FormCheck::BlankName
        }
    }

    /// Whether some model has identifier `id`.
    fn has_id(&self, id: &String) -> (taken: bool)
        ensures
            taken == id_taken(models_view(self.models@), id@),
    {
        let ghost view = models_view(self.models@);
        let n = self.models.len();
        let mut i: usize = 0;
        while i < n
            invariant
                n == self.models@.len(),
                i <= n,
                view == models_view(self.models@),
                forall|k: int| 0 <= k < i ==> view[k].id != id@,
            decreases n - i,
        {
            if self.models[i].id == *id {
                assert(view[i as int].id == id@);
                return true;
            }
            i = i + 1;
        }
        assert(!id_taken(view, id@)) by {
            if id_taken(view, id@) {
                let k = choose|k: int| 0 <= k < view.len() && (#[trigger] view[k]).id == id@;
                assert(view[k].id != id@);
            }
        }
        false
    }

    /// A new identifier that no model has: `model_` and a random number in
    /// decimal, followed, while that is taken, by `_` and another random
    /// number.
    pub fn fresh_model_id(&self) -> (id: String)
        ensures
            !id_taken(models_view(self.models@), id@),
            is_model_id(models_view(self.models@), id@),
    {
        let ghost view = models_view(self.models@);
        let ghost bound = max_id_len(view);
        proof {
            lemma_longer_id_is_free(view);
        }
        let n = random_u32();
        let mut id = model_id_from(n);
        let ghost tail: Seq<char> = Seq::empty();
        assert(id@ =~= model_id_text(n) + tail);
        while self.has_id(&id)
            invariant
                view == models_view(self.models@),
                bound == max_id_len(view),
                forall|t: Seq<char>| t.len() > bound ==> !id_taken(view, t),
                id@ == model_id_text(n) + tail,
                tail.len() > 0 ==> id_taken(view, model_id_text(n)),
            decreases if id@.len() <= bound { bound + 1 - id@.len() } else { 0 },
        {
            let ghost before = id@;
            proof {
                if tail.len() == 0 {
                    assert(model_id_text(n) + tail =~= model_id_text(n));
                }
            }
            push_char(&mut id, '_');
            push_radix(&mut id, random_u32() as u64, 10);
            proof {
                let added = id@.subrange(before.len() as int, id@.len() as int);
                assert(id@ =~= before + added);
                tail = tail + added;
                assert(id@ =~= model_id_text(n) + tail);
                assert(tail.len() > 0);
            }
        }
        assert(is_model_id(view, id@)) by {
            assert(id@ == model_id_text(n) + tail);
        }
        id
    }

    /// Adds the model described by an add form, if the form is accepted,
    /// under an identifier no model has (see `fresh_model_id`); a refused
    /// form changes nothing.
    pub fn add_model(&mut self, form: &AddModelForm) -> (r: Result<(), FormError>)
        ensures
            reports(r, check_form(models_view(old(self).models@), form.name@, form.args@, -1), form.name@),
            r is Ok ==> exists|id: Seq<char>| {
                &&& !id_taken(models_view(old(self).models@), id)
                &&& is_model_id(models_view(old(self).models@), id)
                &&& models_view(final(self).models@) == library_after_add(
                    models_view(old(self).models@), id, form.name@, form.description@, form.args@)
            },
            r is Err ==> final(self).models@ == old(self).models@,
            final(self).llama_server_path == old(self).llama_server_path,
            final(self).add_model_form == old(self).add_model_form,
            final(self).edit_model_form == old(self).edit_model_form,
    {
        let id = match self.check_add(form) {
            FormCheck::Accepted => self.fresh_model_id(),
            _ => String::new(),
        };
        let ghost id_text = id@;
        let r = self.add_model_with_id(form, id);
        proof {
            if r is Ok {
                assert(!id_taken(models_view(old(self).models@), id_text));
            }
        }
        r
    }

    /// The verdict on an edit form for the model at `idx`, without changing
    /// anything.
    pub fn check_edit(&self, idx: usize, form: &EditModelForm) -> (c: FormCheck)
        ensures
            c == check_form(models_view(self.models@), form.name@, form.args@, idx as int),
    {
        let trimmed_name = trim_text(form.name.as_str());
        let trimmed_args = trim_text(form.args.as_str());
        if !trimmed_name.as_str().is_empty() && !trimmed_args.as_str().is_empty() {
            if self.has_name(&trimmed_name, idx, true) {
                FormCheck::DuplicateName
            } else {
                FormCheck::Accepted
            }
        } else if form.name.as_str().is_empty() || trimmed_args.as_str().is_empty() {
            FormCheck::EmptyFields
        } else {
            FormCheck::BlankName
        }
    }

    /// Saves an edit form into the model at `idx` if the form is accepted
    /// (the name may stay the model's own); a refused form changes nothing.
    pub fn save_edit(&mut self, idx: usize, form: &EditModelForm) -> (r: Result<(), FormError>)
        requires
            check_form(models_view(old(self).models@), form.name@, form.args@, idx as int) is Accepted
                ==> idx < old(self).models@.len(),
        ensures
            reports(r, check_form(models_view(old(self).models@), form.name@, form.args@, idx as int), form.name@),
            r is Ok ==> models_view(final(self).models@) == library_after_edit(
                models_view(old(self).models@), idx as int, form.name@, form.description@, form.args@),
            r is Err ==> final(self).models@ == old(self).models@,
            final(self).llama_server_path == old(self).llama_server_path,
            final(self).add_model_form == old(self).add_model_form,
            final(self).edit_model_form == old(self).edit_model_form,
    {
        let trimmed_name = trim_text(form.name.as_str());
        let trimmed_args = trim_text(form.args.as_str());
        if !trimmed_name.as_str().is_empty() && !trimmed_args.as_str().is_empty() {
            if self.has_name(&trimmed_name, idx, true) {
                Err(FormError::DuplicateName(trimmed_name))
            } else {
                let id = self.models[idx].id.clone();
                let description = trim_text(form.description.as_str());
                let ghost before = models_view(self.models@);
                let edited = ModelConfig { id, name: trimmed_name, description, args: trimmed_args };
                self.models.set(idx, edited);
                assert(models_view(self.models@) =~= library_after_edit(
                    before, idx as int, form.name@, form.description@, form.args@));
                Ok(())
            }
        } else if form.name.as_str().is_empty() || trimmed_args.as_str().is_empty() {
            Err(FormError::EmptyFields)
        } else {
            Err(FormError::BlankName)
        }
    }

    /// Deletes the models at the given positions (listed in increasing
    /// order); the others keep their order.
    pub fn delete_models(&mut self, indices: &Vec<usize>)
        requires
            forall|a: int, b: int| 0 <= a < b < indices@.len() ==> indices@[a] < indices@[b],
            forall|a: int| 0 <= a < indices@.len() ==> indices@[a] < old(self).models@.len(),
        ensures
            final(self).models@ == without_positions(old(self).models@, index_set(indices@)),
            final(self).llama_server_path == old(self).llama_server_path,
            final(self).add_model_form == old(self).add_model_form,
            final(self).edit_model_form == old(self).edit_model_form,
    {
        let ghost original = self.models@;
        let mut j = indices.len();
        proof {
            lemma_none_marked(original, index_set_from(indices@, j as int));
        }
        while j > 0
            invariant
                j <= indices@.len(),
                forall|a: int, b: int| 0 <= a < b < indices@.len() ==> indices@[a] < indices@[b],
                forall|a: int| 0 <= a < indices@.len() ==> indices@[a] < original.len(),
                self.models@ == without_positions(original, index_set_from(indices@, j as int)),
                self.llama_server_path == old(self).llama_server_path,
                self.add_model_form == old(self).add_model_form,
                self.edit_model_form == old(self).edit_model_form,
            decreases j,
        {
            let p = indices[j - 1];
            let ghost marked = index_set_from(indices@, j as int);
            proof {
                lemma_remove_marked(original, marked, p as int);
                lemma_prefix_kept(original, marked, p as int);
                assert(marked.insert(p as int) =~= index_set_from(indices@, j - 1));
            }
            self.models.remove(p);
            j = j - 1;
        }
        assert(index_set_from(indices@, 0) =~= index_set(indices@));
    }

    /// Carries out one frame of the settings panel, in the panel's order:
    /// the clicked deletions; the Edit click, which opens the edit form
    /// unless one is open; "+ Add Model", which opens an empty add form and
    /// closes the edit form; Add on the shown add form, which adds the model
    /// under a new identifier when the form is accepted and then stores the
    /// library in `config`; the add form's Cancel; the shown edit form,
    /// which closes the add form, and whose Save saves the edit when the form
    /// is accepted and stores the library in `config` either way; the edit
    /// form's Cancel; and the final Save, which stores the whole settings in
    /// `config`.
    pub fn apply_frame(&mut self, c: &SettingsClicks, config: &mut Config) -> (r: SettingsFrameResult)
        requires
            deletions_ok(old(self).models@, c.delete@),
            frame_runs(*old(self), *c),
        ensures
            exists|id: Seq<char>| {
                &&& frame_add_ok(*old(self), *c) ==> !id_taken(models_view(frame_deleted(*old(self), *c)), id)
                    && is_model_id(models_view(frame_deleted(*old(self), *c)), id)
                &&& models_view(final(self).models@) == frame_models(*old(self), *c, id)
                &&& (frame_edit_tried(*old(self), *c) ==> reports_opt(r.edit_error, frame_edit_check(*old(self), *c, id),
                    (frame_edit_form(*old(self), *c)->0).1.name))
            },
            !frame_edit_tried(*old(self), *c) ==> r.edit_error is None,
            frame_add_tried(*old(self), *c) ==> reports_opt(r.add_error, frame_add_check(*old(self), *c),
                frame_add_form(*old(self), *c)->0.name),
            !frame_add_tried(*old(self), *c) ==> r.add_error is None,
            add_form_view(final(self).add_model_form) == frame_final_add(*old(self), *c),
            edit_form_view(final(self).edit_model_form) == frame_final_edit(*old(self), *c),
            final(self).llama_server_path == old(self).llama_server_path,
            r.save == (frame_add_ok(*old(self), *c) || frame_edit_tried(*old(self), *c) || c.save_all),
            c.save_all ==> final(config).llama_server_path == final(self).llama_server_path
                && final(config).models@ == final(self).models@,
            !c.save_all && r.save ==> final(config).llama_server_path == old(config).llama_server_path
                && final(config).models@ == final(self).models@,
            !r.save ==> final(config).llama_server_path == old(config).llama_server_path
                && final(config).models@ == old(config).models@,
            names_unique(models_view(old(self).models@)) ==> names_unique(models_view(final(self).models@)),
            ids_unique(models_view(old(self).models@)) ==> ids_unique(models_view(final(self).models@)),
            !(final(self).add_model_form is Some && final(self).edit_model_form is Some),
    {
        let ghost s0 = *self;
        let ghost c0 = *c;
        self.delete_models(&c.delete);
        let ghost d = self.models@;
        assert(d == frame_deleted(s0, c0));
        if let Some(i) = c.edit {
            self.open_edit_form(i);
        }
        assert(edit_form_view(self.edit_model_form) == frame_edit_opened(s0, c0));
        if c.open_add {
            self.open_add_form();
            proof {
                let f = self.add_model_form->0;
                assert(f.name@ =~= Seq::<char>::empty());
                assert(f.description@ =~= Seq::<char>::empty());
                assert(f.args@ =~= Seq::<char>::empty());
            }
        }
        assert(add_form_view(self.add_model_form) == frame_add_form(s0, c0));
        assert(edit_form_view(self.edit_model_form) == frame_edit_form(s0, c0));
        let mut save = false;
        let mut add_error: Option<FormError> = None;
        let mut edit_error: Option<FormError> = None;
        let ghost mut id: Seq<char> = Seq::empty();
        if c.add {
            if let Some(form) = self.add_model_form.take() {
                match self.add_model(&form) {
                    Ok(()) => {
                        proof {
                            id = choose|id: Seq<char>| {
                                &&& !id_taken(models_view(d), id)
                                &&& is_model_id(models_view(d), id)
                                &&& models_view(self.models@) == library_after_add(
                                    models_view(d), id, form.name@, form.description@, form.args@)
                            };
                        }
                        self.store_models(config);
                        save = true;
                    },
                    Err(e) => {
                        add_error = Some(e);
                    },
                }
                self.add_model_form = Some(form);
            }
        }
        assert(models_view(self.models@) == frame_after_add(s0, c0, id));
        proof {
            lemma_after_add_names(s0, c0, id, Seq::empty());
        }
        if c.cancel_add {
            self.close_add_form();
        }
        let ghost after_add = self.models@;
        if let Some((i, form)) = self.edit_model_form.take() {
            self.close_add_form();
            if c.save_edit {
                match self.save_edit(i, &form) {
                    Ok(()) => {},
                    Err(e) => {
                        edit_error = Some(e);
                    },
                }
                self.store_models(config);
                save = true;
            }
            if !c.cancel_edit {
                self.edit_model_form = Some((i, form));
            }
        }
        assert(models_view(self.models@) == frame_models(s0, c0, id));
        if c.save_all {
            *config = self.to_config();
            save = true;
        }
        proof {
            law_frame_keeps_unique(s0, c0, id);
        }
        SettingsFrameResult { save, add_error, edit_error }
    }


    /// Whether `apply_frame` can run these clicks without an out-of-range
    /// position (see `frame_runs`); the caller tests it first.
    pub fn frame_can_run(&self, c: &SettingsClicks) -> (ok: bool)
        requires
            deletions_ok(self.models@, c.delete@),
        ensures
            ok == frame_runs(*self, *c),
    {
        let ghost s0 = *self;
        let ghost c0 = *c;
        let models = self.models.clone();
        assert(models@ =~= self.models@);
        let mut t = SettingsState {
            llama_server_path: String::new(),
            models,
            add_model_form: None,
            edit_model_form: None,
        };
        t.delete_models(&c.delete);
        let ghost d = t.models@;
        assert(d == frame_deleted(s0, c0));
        if self.edit_model_form.is_none() {
            if let Some(i) = c.edit {
                if i >= t.models.len() {
                    return false;
                }
            }
        }
        let edit: Option<(usize, EditModelForm)> = if c.open_add {
            None
        } else {
            match &self.edit_model_form {
                Some((i, f)) => Some((
                    *i,
                    EditModelForm { name: f.name.clone(), description: f.description.clone(), args: f.args.clone() },
                )),
                None => match c.edit {
                    Some(i) => Some((i, EditModelForm::from_model(&t.models[i]))),
                    None => None,
                },
            }
        };
        assert(edit_form_view(edit) == frame_edit_form(s0, c0));
        let placeholder = String::new();
        assert(placeholder@ =~= Seq::<char>::empty());
        if c.add && !c.open_add {
            if let Some(f) = &self.add_model_form {
                let _ = t.add_model_with_id(f, placeholder);
            }
        }
        proof {
            if c0.open_add {
                let e = empty_form_view();
                assert(spec_trim(e.name) == e.name);
            }
        }
        assert(models_view(t.models@) == frame_after_add(s0, c0, Seq::empty()));
        match edit {
            Some((i, f)) => {
                if c.save_edit {
                    match t.check_edit(i, &f) {
                        FormCheck::Accepted => i < t.models.len(),
                        _ => true,
                    }
                } else {
                    true
                }
            },
            None => true,
        }
    }

}

} // verus!
