//! The documentation model accumulator: path items keyed by full path with
//! one operation slot per HTTP method, and the schema table with
//! last-write-wins registration.

use vstd::prelude::*;
use vstd::string::*;

use crate::docs::{OperationDoc, OperationDocV};
use crate::parse::{pairs_view, HttpMethod};
use crate::text::str_eq;

verus! {

/// One path item: up to one operation per HTTP method.
#[derive(Debug)]
pub struct PathItemDoc {
    pub get: Option<OperationDoc>,
    pub post: Option<OperationDoc>,
    pub put: Option<OperationDoc>,
    pub patch: Option<OperationDoc>,
    pub delete: Option<OperationDoc>,
    pub head: Option<OperationDoc>,
    pub options: Option<OperationDoc>,
    pub trace: Option<OperationDoc>,
}

/// Mathematical view of a [`PathItemDoc`].
#[verifier::ext_equal]
pub ghost struct PathItemDocV {
    pub get: Option<OperationDocV>,
    pub post: Option<OperationDocV>,
    pub put: Option<OperationDocV>,
    pub patch: Option<OperationDocV>,
    pub delete: Option<OperationDocV>,
    pub head: Option<OperationDocV>,
    pub options: Option<OperationDocV>,
    pub trace: Option<OperationDocV>,
}

/// View of an optional operation.
pub open spec fn opt_op_view(o: Option<OperationDoc>) -> Option<OperationDocV> {
    match o {
        Some(op) => Some(op@),
        None => None,
    }
}

impl View for PathItemDoc {
    type V = PathItemDocV;

    open spec fn view(&self) -> PathItemDocV {
        PathItemDocV {
            get: opt_op_view(self.get),
            post: opt_op_view(self.post),
            put: opt_op_view(self.put),
            patch: opt_op_view(self.patch),
            delete: opt_op_view(self.delete),
            head: opt_op_view(self.head),
            options: opt_op_view(self.options),
            trace: opt_op_view(self.trace),
        }
    }
}

/// The operation a path item holds for a method.
pub open spec fn item_slot(item: PathItemDocV, m: HttpMethod) -> Option<OperationDocV> {
    match m {
        HttpMethod::Get => item.get,
        HttpMethod::Post => item.post,
        HttpMethod::Put => item.put,
        HttpMethod::Patch => item.patch,
        HttpMethod::Delete => item.delete,
        HttpMethod::Head => item.head,
        HttpMethod::Options => item.options,
        HttpMethod::Trace => item.trace,
    }
}

/// The path item with one method slot filled and every other slot kept.
pub open spec fn item_with(item: PathItemDocV, m: HttpMethod, op: OperationDocV) -> PathItemDocV {
    match m {
        HttpMethod::Get => PathItemDocV { get: Some(op), ..item },
        HttpMethod::Post => PathItemDocV { post: Some(op), ..item },
        HttpMethod::Put => PathItemDocV { put: Some(op), ..item },
        HttpMethod::Patch => PathItemDocV { patch: Some(op), ..item },
        HttpMethod::Delete => PathItemDocV { delete: Some(op), ..item },
        HttpMethod::Head => PathItemDocV { head: Some(op), ..item },
        HttpMethod::Options => PathItemDocV { options: Some(op), ..item },
        HttpMethod::Trace => PathItemDocV { trace: Some(op), ..item },
    }
}

/// The path item with every slot empty.
pub open spec fn empty_item() -> PathItemDocV {
    PathItemDocV {
        get: None,
        post: None,
        put: None,
        patch: None,
        delete: None,
        head: None,
        options: None,
        trace: None,
    }
}

/// Filling one slot never touches another: the filled slot holds the new
/// operation and every other slot is unchanged.
pub proof fn lemma_item_with_slots(item: PathItemDocV, m: HttpMethod, op: OperationDocV)
    ensures
        item_slot(item_with(item, m, op), m) == Some(op),
        forall|m2: HttpMethod| m2 != m ==> item_slot(item_with(item, m, op), m2) == item_slot(
            item,
            m2,
        ),
{
}

/// An empty path item with one operation filled in.
fn empty_path_item() -> (r: PathItemDoc)
    ensures
        r@ == empty_item(),
{
    PathItemDoc {
        get: None,
        post: None,
        put: None,
        patch: None,
        delete: None,
        head: None,
        options: None,
        trace: None,
    }
}

/// Fills one method slot of a path item.
fn set_slot(item: PathItemDoc, m: HttpMethod, op: OperationDoc) -> (r: PathItemDoc)
    ensures
        r@ == item_with(item@, m, op@),
{
    let mut it = item;
    match m {
        HttpMethod::Get => it.get = Some(op),
        HttpMethod::Post => it.post = Some(op),
        HttpMethod::Put => it.put = Some(op),
        HttpMethod::Patch => it.patch = Some(op),
        HttpMethod::Delete => it.delete = Some(op),
        HttpMethod::Head => it.head = Some(op),
        HttpMethod::Options => it.options = Some(op),
        HttpMethod::Trace => it.trace = Some(op),
    }
    proof {
        assert(it@ =~= item_with(item@, m, op@));
    }
    it
}

/// View of the path entries.
pub open spec fn paths_view(s: Seq<(String, PathItemDoc)>) -> Seq<(Seq<char>, PathItemDocV)> {
    s.map_values(|e: (String, PathItemDoc)| (e.0@, e.1@))
}

/// The path item stored for a key: the first entry with that key.
pub open spec fn spec_lookup_path(s: Seq<(Seq<char>, PathItemDocV)>, k: Seq<char>) -> Option<
    PathItemDocV,
>
    decreases s,
{
    if s.len() == 0 {
        None
    } else if s[0].0 == k {
        Some(s[0].1)
    } else {
        spec_lookup_path(s.subrange(1, s.len() as int), k)
    }
}

/// Registration of one operation: the entry with the key gets the method
/// slot filled; a missing key is appended at the end with only that slot.
pub open spec fn spec_register_path_entry(
    s: Seq<(Seq<char>, PathItemDocV)>,
    k: Seq<char>,
    m: HttpMethod,
    op: OperationDocV,
) -> Seq<(Seq<char>, PathItemDocV)>
    decreases s,
{
    if s.len() == 0 {
        seq![(k, item_with(empty_item(), m, op))]
    } else if s[0].0 == k {
        seq![(k, item_with(s[0].1, m, op))] + s.subrange(1, s.len() as int)
    } else {
        seq![s[0]] + spec_register_path_entry(s.subrange(1, s.len() as int), k, m, op)
    }
}

/// What registration does to lookups: the key's item gains the operation in
/// its method slot, keeping its other slots, and every other key is
/// untouched.
pub proof fn lemma_register_path_lookup(
    s: Seq<(Seq<char>, PathItemDocV)>,
    k: Seq<char>,
    m: HttpMethod,
    op: OperationDocV,
)
    ensures
        spec_lookup_path(spec_register_path_entry(s, k, m, op), k) == Some(
            item_with(
                match spec_lookup_path(s, k) {
                    Some(it) => it,
                    None => empty_item(),
                },
                m,
                op,
            ),
        ),
        forall|k2: Seq<char>| k2 != k ==> spec_lookup_path(
            spec_register_path_entry(s, k, m, op),
            k2,
        ) == #[trigger] spec_lookup_path(s, k2),
    decreases s,
{
    let out = spec_register_path_entry(s, k, m, op);
    if s.len() == 0 {
        assert(out == seq![(k, item_with(empty_item(), m, op))]);
        assert(out[0].0 == k);
        assert forall|k2: Seq<char>| k2 != k implies spec_lookup_path(out, k2)
            == #[trigger] spec_lookup_path(s, k2) by {
            let e = out.subrange(1, out.len() as int);
            assert(e =~= Seq::<(Seq<char>, PathItemDocV)>::empty());
            assert(out[0].0 != k2);
            assert(spec_lookup_path(out, k2) == spec_lookup_path(e, k2));
            assert(spec_lookup_path(e, k2) is None);
            assert(spec_lookup_path(s, k2) is None);
        }
    } else if s[0].0 == k {
        assert(out == seq![(k, item_with(s[0].1, m, op))] + s.subrange(1, s.len() as int));
        assert(out[0] == (k, item_with(s[0].1, m, op)));
        assert(out.subrange(1, out.len() as int) =~= s.subrange(1, s.len() as int));
        assert(spec_lookup_path(out, k) == Some(item_with(s[0].1, m, op)));
        assert forall|k2: Seq<char>| k2 != k implies spec_lookup_path(out, k2)
            == #[trigger] spec_lookup_path(s, k2) by {
            assert(spec_lookup_path(out, k2) == spec_lookup_path(
                out.subrange(1, out.len() as int),
                k2,
            ));
            assert(spec_lookup_path(s, k2) == spec_lookup_path(s.subrange(1, s.len() as int), k2));
        }
    } else {
        let t = s.subrange(1, s.len() as int);
        lemma_register_path_lookup(t, k, m, op);
        assert(out == seq![s[0]] + spec_register_path_entry(t, k, m, op));
        assert(out[0] == s[0]);
        assert(out.subrange(1, out.len() as int) =~= spec_register_path_entry(t, k, m, op));
        assert(spec_lookup_path(out, k) == spec_lookup_path(spec_register_path_entry(t, k, m, op), k));
        assert(spec_lookup_path(s, k) == spec_lookup_path(t, k));
        assert forall|k2: Seq<char>| k2 != k implies spec_lookup_path(out, k2)
            == #[trigger] spec_lookup_path(s, k2) by {
            if out[0].0 == k2 {
            } else {
                assert(spec_lookup_path(out, k2) == spec_lookup_path(
                    spec_register_path_entry(t, k, m, op),
                    k2,
                ));
                assert(spec_lookup_path(s, k2) == spec_lookup_path(t, k2));
            }
        }
    }
}

/// Two operations at the same path under different methods both survive:
/// registering the second never overwrites the first.
pub proof fn lemma_multi_method_merge(
    s: Seq<(Seq<char>, PathItemDocV)>,
    k: Seq<char>,
    m1: HttpMethod,
    op1: OperationDocV,
    m2: HttpMethod,
    op2: OperationDocV,
)
    requires
        m1 != m2,
    ensures
        ({
            let merged = spec_register_path_entry(
                spec_register_path_entry(s, k, m1, op1),
                k,
                m2,
                op2,
            );
            &&& spec_lookup_path(merged, k) is Some
            &&& item_slot(spec_lookup_path(merged, k)->Some_0, m1) == Some(op1)
            &&& item_slot(spec_lookup_path(merged, k)->Some_0, m2) == Some(op2)
        }),
{
    let s1 = spec_register_path_entry(s, k, m1, op1);
    lemma_register_path_lookup(s, k, m1, op1);
    lemma_register_path_lookup(s1, k, m2, op2);
}

/// View of the schema table.
pub open spec fn schemas_view(s: Seq<(String, String)>) -> Seq<(Seq<char>, Seq<char>)> {
    pairs_view(s)
}

/// The schema stored for a name: the first entry with that name.
pub open spec fn spec_lookup_schema(s: Seq<(Seq<char>, Seq<char>)>, k: Seq<char>) -> Option<
    Seq<char>,
>
    decreases s,
{
    if s.len() == 0 {
        None
    } else if s[0].0 == k {
        Some(s[0].1)
    } else {
        spec_lookup_schema(s.subrange(1, s.len() as int), k)
    }
}

/// Registration of one schema: an existing name is overwritten in place, a
/// new name is appended at the end.
pub open spec fn spec_register_schema_entry(
    s: Seq<(Seq<char>, Seq<char>)>,
    k: Seq<char>,
    d: Seq<char>,
) -> Seq<(Seq<char>, Seq<char>)>
    decreases s,
{
    if s.len() == 0 {
        seq![(k, d)]
    } else if s[0].0 == k {
        seq![(k, d)] + s.subrange(1, s.len() as int)
    } else {
        seq![s[0]] + spec_register_schema_entry(s.subrange(1, s.len() as int), k, d)
    }
}

/// What schema registration does to lookups: the name now maps to the new
/// definition and every other name is untouched.
pub proof fn lemma_register_schema_lookup(s: Seq<(Seq<char>, Seq<char>)>, k: Seq<char>, d: Seq<char>)
    ensures
        spec_lookup_schema(spec_register_schema_entry(s, k, d), k) == Some(d),
        forall|k2: Seq<char>| k2 != k ==> spec_lookup_schema(
            spec_register_schema_entry(s, k, d),
            k2,
        ) == #[trigger] spec_lookup_schema(s, k2),
    decreases s,
{
    let out = spec_register_schema_entry(s, k, d);
    if s.len() == 0 {
        assert(out == seq![(k, d)]);
        assert(out[0].0 == k);
        assert forall|k2: Seq<char>| k2 != k implies spec_lookup_schema(out, k2)
            == #[trigger] spec_lookup_schema(s, k2) by {
            let e = out.subrange(1, out.len() as int);
            assert(e =~= Seq::<(Seq<char>, Seq<char>)>::empty());
            assert(out[0].0 != k2);
            assert(spec_lookup_schema(out, k2) == spec_lookup_schema(e, k2));
            assert(spec_lookup_schema(e, k2) is None);
            assert(spec_lookup_schema(s, k2) is None);
        }
    } else if s[0].0 == k {
        assert(out == seq![(k, d)] + s.subrange(1, s.len() as int));
        assert(out[0] == (k, d));
        assert(out.subrange(1, out.len() as int) =~= s.subrange(1, s.len() as int));
        assert(spec_lookup_schema(out, k) == Some(d));
        assert forall|k2: Seq<char>| k2 != k implies spec_lookup_schema(out, k2)
            == #[trigger] spec_lookup_schema(s, k2) by {
            assert(spec_lookup_schema(out, k2) == spec_lookup_schema(
                out.subrange(1, out.len() as int),
                k2,
            ));
            assert(spec_lookup_schema(s, k2) == spec_lookup_schema(
                s.subrange(1, s.len() as int),
                k2,
            ));
        }
    } else {
        let t = s.subrange(1, s.len() as int);
        lemma_register_schema_lookup(t, k, d);
        assert(out == seq![s[0]] + spec_register_schema_entry(t, k, d));
        assert(out[0] == s[0]);
        assert(out.subrange(1, out.len() as int) =~= spec_register_schema_entry(t, k, d));
        assert(spec_lookup_schema(out, k) == spec_lookup_schema(spec_register_schema_entry(t, k, d), k));
        assert(spec_lookup_schema(s, k) == spec_lookup_schema(t, k));
        assert forall|k2: Seq<char>| k2 != k implies spec_lookup_schema(out, k2)
            == #[trigger] spec_lookup_schema(s, k2) by {
            if out[0].0 == k2 {
            } else {
                assert(spec_lookup_schema(out, k2) == spec_lookup_schema(
                    spec_register_schema_entry(t, k, d),
                    k2,
                ));
                assert(spec_lookup_schema(s, k2) == spec_lookup_schema(t, k2));
            }
        }
    }
}

/// Registering a name twice leaves the second definition: last write wins.
pub proof fn lemma_schema_overwrite(
    s: Seq<(Seq<char>, Seq<char>)>,
    k: Seq<char>,
    d1: Seq<char>,
    d2: Seq<char>,
)
    ensures
        spec_lookup_schema(
            spec_register_schema_entry(spec_register_schema_entry(s, k, d1), k, d2),
            k,
        ) == Some(d2),
{
    lemma_register_schema_lookup(spec_register_schema_entry(s, k, d1), k, d2);
}

/// The assembled documentation model: path items keyed by full path, and
/// the schema table. Both grow in registration order.
#[derive(Debug)]
pub struct DocModel {
    /// Path entries, in first-registration order of their paths.
    pub paths: Vec<(String, PathItemDoc)>,
    /// Schema entries, in first-registration order of their names.
    pub schemas: Vec<(String, String)>,
}

impl DocModel {
    /// An empty documentation model.
    pub fn new() -> (r: DocModel)
        ensures
            paths_view(r.paths@) == Seq::<(Seq<char>, PathItemDocV)>::empty(),
            schemas_view(r.schemas@) == Seq::<(Seq<char>, Seq<char>)>::empty(),
    {
        let r = DocModel { paths: Vec::new(), schemas: Vec::new() };
        proof {
            assert(paths_view(r.paths@) =~= Seq::<(Seq<char>, PathItemDocV)>::empty());
            assert(schemas_view(r.schemas@) =~= Seq::<(Seq<char>, Seq<char>)>::empty());
        }
        r
    }

    /// Merges one operation into the model under its full path and method,
    /// leaving every other method slot and every other path untouched.
    pub fn register_operation(&mut self, path: String, op: OperationDoc)
        ensures
            paths_view(final(self).paths@) == spec_register_path_entry(
                paths_view(old(self).paths@),
                path@,
                op.method,
                op@,
            ),
            schemas_view(final(self).schemas@) == schemas_view(old(self).schemas@),
    {
        let ghost s0 = paths_view(self.paths@);
        let ghost pv = path@;
        let ghost opv = op@;
        let m = op.method;
        let mut i: usize = 0;
        let n = self.paths.len();
        while i < n
            invariant
                n == self.paths@.len(),
                0 <= i <= n,
                forall|j: int| 0 <= j < i ==> #[trigger] paths_view(self.paths@)[j].0 != pv,
                s0 == paths_view(self.paths@),
                self.paths@ == old(self).paths@,
                self.schemas@ == old(self).schemas@,
                pv == path@,
                opv == op@,
                m == op.method,
            decreases n - i,
        {
            if str_eq(self.paths[i].0.as_str(), path.as_str()) {
                let ghost pre = self.paths@;
                let entry = self.paths.remove(i);
                let ghost ev = entry.1@;
                let filled = set_slot(entry.1, m, op);
                let ghost fv = filled@;
                self.paths.insert(i, (path, filled));
                proof {
                    assert(s0[i as int].0 == pv);
                    assert(s0[i as int].1 == ev);
                    lemma_register_at_index(s0, pv, m, opv, i as int, ev);
                    assert(self.paths@ == pre.remove(i as int).insert(
                        i as int,
                        self.paths@[i as int],
                    ));
                    assert(self.paths@[i as int].0@ == pv);
                    assert(self.paths@[i as int].1@ == fv);
                    assert(fv == item_with(ev, m, opv));
                    assert forall|j: int| 0 <= j < self.paths@.len() implies paths_view(
                        self.paths@,
                    )[j] == s0.update(i as int, (pv, item_with(ev, m, opv)))[j] by {
                        if j != i {
                            assert(self.paths@[j] == pre[j]);
                        }
                    }
                    assert(paths_view(self.paths@) =~= s0.update(
                        i as int,
                        (pv, item_with(ev, m, opv)),
                    ));
                    assert(spec_register_path_entry(s0, pv, m, opv) == s0.update(
                        i as int,
                        (pv, item_with(ev, m, opv)),
                    ));
                    assert(paths_view(self.paths@) == spec_register_path_entry(s0, pv, m, opv));
                    assert(s0 == paths_view(old(self).paths@));
                    assert(pv == path@ && opv == op@ && m == op.method);
                }
                return;
            }
            i = i + 1;
        }
        let ghost pre = self.paths@;
        let item = empty_path_item();
        let filled = set_slot(item, m, op);
        let ghost fv = filled@;
        self.paths.push((path, filled));
        proof {
            lemma_register_append(s0, pv, m, opv);
            assert(self.paths@ == pre.push(self.paths@[pre.len() as int]));
            assert(self.paths@[pre.len() as int].0@ == pv);
            assert(self.paths@[pre.len() as int].1@ == fv);
            assert forall|j: int| 0 <= j < self.paths@.len() implies paths_view(self.paths@)[j]
                == s0.push((pv, item_with(empty_item(), m, opv)))[j] by {
                if j < pre.len() {
                    assert(self.paths@[j] == pre[j]);
                }
            }
            assert(paths_view(self.paths@) =~= s0.push((pv, item_with(empty_item(), m, opv))));
        }
    }

    /// Looks up the operation documented for a path and method.
    pub fn get_operation(&self, path: &str, m: HttpMethod) -> (r: Option<&OperationDoc>)
        ensures
            ({
                let found = spec_lookup_path(paths_view(self.paths@), path@);
                match r {
                    Some(op) => found is Some && item_slot(found->Some_0, m) == Some(op@),
                    None => found is None || item_slot(found->Some_0, m) is None,
                }
            }),
    {
        let n = self.paths.len();
        let mut i: usize = 0;
        while i < n
            invariant
                n == self.paths@.len(),
                0 <= i <= n,
                forall|j: int| 0 <= j < i ==> #[trigger] paths_view(self.paths@)[j].0 != path@,
            decreases n - i,
        {
            if str_eq(self.paths[i].0.as_str(), path) {
                proof {
                    lemma_lookup_at_index(paths_view(self.paths@), path@, i as int);
                }
                let item = &self.paths[i].1;
                return match m {
                    HttpMethod::Get => item.get.as_ref(),
                    HttpMethod::Post => item.post.as_ref(),
                    HttpMethod::Put => item.put.as_ref(),
                    HttpMethod::Patch => item.patch.as_ref(),
                    HttpMethod::Delete => item.delete.as_ref(),
                    HttpMethod::Head => item.head.as_ref(),
                    HttpMethod::Options => item.options.as_ref(),
                    HttpMethod::Trace => item.trace.as_ref(),
                };
            }
            i = i + 1;
        }
        proof {
            lemma_lookup_none(paths_view(self.paths@), path@);
        }
        None
    }

    /// Registers one schema definition under a name; an existing name is
    /// overwritten, last write wins.
    pub fn register_schema(&mut self, name: String, def: String)
        ensures
            schemas_view(final(self).schemas@) == spec_register_schema_entry(
                schemas_view(old(self).schemas@),
                name@,
                def@,
            ),
            paths_view(final(self).paths@) == paths_view(old(self).paths@),
    {
        let ghost s0 = schemas_view(self.schemas@);
        let ghost nv = name@;
        let ghost dv = def@;
        let mut i: usize = 0;
        let n = self.schemas.len();
        while i < n
            invariant
                n == self.schemas@.len(),
                0 <= i <= n,
                forall|j: int| 0 <= j < i ==> #[trigger] schemas_view(self.schemas@)[j].0 != nv,
                s0 == schemas_view(self.schemas@),
                self.schemas@ == old(self).schemas@,
                self.paths@ == old(self).paths@,
                nv == name@,
                dv == def@,
            decreases n - i,
        {
            if str_eq(self.schemas[i].0.as_str(), name.as_str()) {
                let ghost pre = self.schemas@;
                let _ = self.schemas.remove(i);
                self.schemas.insert(i, (name, def));
                proof {
                    assert(s0[i as int].0 == nv);
                    lemma_schema_register_at_index(s0, nv, dv, i as int);
                    assert(self.schemas@ == pre.remove(i as int).insert(
                        i as int,
                        self.schemas@[i as int],
                    ));
                    assert(self.schemas@[i as int].0@ == nv);
                    assert(self.schemas@[i as int].1@ == dv);
                    assert forall|j: int| 0 <= j < self.schemas@.len() implies schemas_view(
                        self.schemas@,
                    )[j] == s0.update(i as int, (nv, dv))[j] by {
                        if j != i {
                            assert(self.schemas@[j] == pre[j]);
                        }
                    }
                    assert(schemas_view(self.schemas@) =~= s0.update(i as int, (nv, dv)));
                }
                return;
            }
            i = i + 1;
        }
        let ghost pre = self.schemas@;
        self.schemas.push((name, def));
        proof {
            lemma_schema_register_append(s0, nv, dv);
            assert(self.schemas@ == pre.push(self.schemas@[pre.len() as int]));
            assert(self.schemas@[pre.len() as int].0@ == nv);
            assert(self.schemas@[pre.len() as int].1@ == dv);
            assert forall|j: int| 0 <= j < self.schemas@.len() implies schemas_view(self.schemas@)[j]
                == s0.push((nv, dv))[j] by {
                if j < pre.len() {
                    assert(self.schemas@[j] == pre[j]);
                }
            }
            assert(schemas_view(self.schemas@) =~= s0.push((nv, dv)));
        }
    }

    /// Looks up the schema registered under a name.
    pub fn get_schema(&self, name: &str) -> (r: Option<&String>)
        ensures
            match r {
                Some(d) => spec_lookup_schema(schemas_view(self.schemas@), name@) == Some(d@),
                None => spec_lookup_schema(schemas_view(self.schemas@), name@) is None,
            },
    {
        let n = self.schemas.len();
        let mut i: usize = 0;
        while i < n
            invariant
                n == self.schemas@.len(),
                0 <= i <= n,
                forall|j: int| 0 <= j < i ==> #[trigger] schemas_view(self.schemas@)[j].0 != name@,
            decreases n - i,
        {
            if str_eq(self.schemas[i].0.as_str(), name) {
                proof {
                    lemma_schema_lookup_at_index(schemas_view(self.schemas@), name@, i as int);
                }
                return Some(&self.schemas[i].1);
            }
            i = i + 1;
        }
        proof {
            lemma_schema_lookup_none(schemas_view(self.schemas@), name@);
        }
        None
    }
}

/// Registration at the first matching index updates that entry in place.
proof fn lemma_register_at_index(
    s: Seq<(Seq<char>, PathItemDocV)>,
    k: Seq<char>,
    m: HttpMethod,
    op: OperationDocV,
    i: int,
    it: PathItemDocV,
)
    requires
        0 <= i < s.len(),
        s[i].0 == k,
        s[i].1 == it,
        forall|j: int| 0 <= j < i ==> #[trigger] s[j].0 != k,
    ensures
        spec_register_path_entry(s, k, m, op) == s.update(i, (k, item_with(it, m, op))),
    decreases s,
{
    if i == 0 {
        assert(spec_register_path_entry(s, k, m, op) =~= s.update(0, (k, item_with(it, m, op))));
    } else {
        let t = s.subrange(1, s.len() as int);
        lemma_register_at_index(t, k, m, op, i - 1, it);
        assert(s[0].0 != k);
        assert(spec_register_path_entry(s, k, m, op) =~= s.update(i, (k, item_with(it, m, op))));
    }
}

/// Registration with no matching key appends a fresh entry.
proof fn lemma_register_append(
    s: Seq<(Seq<char>, PathItemDocV)>,
    k: Seq<char>,
    m: HttpMethod,
    op: OperationDocV,
)
    requires
        forall|j: int| 0 <= j < s.len() ==> #[trigger] s[j].0 != k,
    ensures
        spec_register_path_entry(s, k, m, op) == s.push((k, item_with(empty_item(), m, op))),
    decreases s,
{
    if s.len() == 0 {
        assert(spec_register_path_entry(s, k, m, op) =~= s.push(
            (k, item_with(empty_item(), m, op)),
        ));
    } else {
        let t = s.subrange(1, s.len() as int);
        lemma_register_append(t, k, m, op);
        assert(spec_register_path_entry(s, k, m, op) =~= s.push(
            (k, item_with(empty_item(), m, op)),
        ));
    }
}

/// A lookup finds the first matching index.
proof fn lemma_lookup_at_index(s: Seq<(Seq<char>, PathItemDocV)>, k: Seq<char>, i: int)
    requires
        0 <= i < s.len(),
        s[i].0 == k,
        forall|j: int| 0 <= j < i ==> #[trigger] s[j].0 != k,
    ensures
        spec_lookup_path(s, k) == Some(s[i].1),
    decreases s,
{
    if i > 0 {
        let t = s.subrange(1, s.len() as int);
        lemma_lookup_at_index(t, k, i - 1);
    }
}

/// A lookup over entries without the key finds nothing.
proof fn lemma_lookup_none(s: Seq<(Seq<char>, PathItemDocV)>, k: Seq<char>)
    requires
        forall|j: int| 0 <= j < s.len() ==> #[trigger] s[j].0 != k,
    ensures
        spec_lookup_path(s, k) is None,
    decreases s,
{
    if s.len() > 0 {
        lemma_lookup_none(s.subrange(1, s.len() as int), k);
    }
}

/// Schema registration at the first matching index overwrites in place.
proof fn lemma_schema_register_at_index(
    s: Seq<(Seq<char>, Seq<char>)>,
    k: Seq<char>,
    d: Seq<char>,
    i: int,
)
    requires
        0 <= i < s.len(),
        s[i].0 == k,
        forall|j: int| 0 <= j < i ==> #[trigger] s[j].0 != k,
    ensures
        spec_register_schema_entry(s, k, d) == s.update(i, (k, d)),
    decreases s,
{
    if i == 0 {
        assert(spec_register_schema_entry(s, k, d) =~= s.update(0, (k, d)));
    } else {
        let t = s.subrange(1, s.len() as int);
        lemma_schema_register_at_index(t, k, d, i - 1);
        assert(spec_register_schema_entry(s, k, d) =~= s.update(i, (k, d)));
    }
}

/// Schema registration with no matching name appends a fresh entry.
proof fn lemma_schema_register_append(s: Seq<(Seq<char>, Seq<char>)>, k: Seq<char>, d: Seq<char>)
    requires
        forall|j: int| 0 <= j < s.len() ==> #[trigger] s[j].0 != k,
    ensures
        spec_register_schema_entry(s, k, d) == s.push((k, d)),
    decreases s,
{
    if s.len() == 0 {
        assert(spec_register_schema_entry(s, k, d) =~= s.push((k, d)));
    } else {
        lemma_schema_register_append(s.subrange(1, s.len() as int), k, d);
        assert(spec_register_schema_entry(s, k, d) =~= s.push((k, d)));
    }
}

/// A schema lookup finds the first matching index.
proof fn lemma_schema_lookup_at_index(s: Seq<(Seq<char>, Seq<char>)>, k: Seq<char>, i: int)
    requires
        0 <= i < s.len(),
        s[i].0 == k,
        forall|j: int| 0 <= j < i ==> #[trigger] s[j].0 != k,
    ensures
        spec_lookup_schema(s, k) == Some(s[i].1),
    decreases s,
{
    if i > 0 {
        lemma_schema_lookup_at_index(s.subrange(1, s.len() as int), k, i - 1);
    }
}

/// A schema lookup over entries without the name finds nothing.
proof fn lemma_schema_lookup_none(s: Seq<(Seq<char>, Seq<char>)>, k: Seq<char>)
    requires
        forall|j: int| 0 <= j < s.len() ==> #[trigger] s[j].0 != k,
    ensures
        spec_lookup_schema(s, k) is None,
    decreases s,
{
    if s.len() > 0 {
        lemma_schema_lookup_none(s.subrange(1, s.len() as int), k);
    }
}

} // verus!
