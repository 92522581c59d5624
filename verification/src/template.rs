//! VM templates: named VM configurations to create new VMs from.
use crate::error::AppError;
use crate::ids::{canonical_uuid, new_uuid};
use crate::text::str_eq;
use crate::vm::VmConfig;
use vstd::prelude::*;

verus! {

/// A stored VM configuration.
#[derive(Debug)]
pub struct VmTemplate {
    pub id: String,
    pub name: String,
    pub description: String,
    pub config: VmConfig,
    pub created_at: i64,
    pub updated_at: i64,
}

/// A template to create, or the new content of one.
#[derive(Debug)]
pub struct CreateTemplateRequest {
    pub name: String,
    pub description: String,
    pub config: VmConfig,
}

/// Index of the first template with id `id`.
pub open spec fn template_index(s: Seq<VmTemplate>, id: Seq<char>, k: int) -> Option<int>
    decreases s.len() - k,
{
    if k < 0 || k >= s.len() {
        None
    } else if s[k].id@ == id {
        Some(k)
    } else {
        template_index(s, id, k + 1)
    }
}

/// No two templates share an id, as no two files of the template directory share a name.
pub open spec fn template_ids_distinct(s: Seq<VmTemplate>) -> bool {
    forall|i: int, j: int| 0 <= i < j < s.len() ==> (#[trigger] s[i]).id@ != (#[trigger] s[j]).id@
}

/// The templates after storing `t`: it takes the place of a template with its id (the
/// file of that name is written over), else it is added last.
pub open spec fn with_template(s: Seq<VmTemplate>, t: VmTemplate) -> Seq<VmTemplate> {
    match template_index(s, t.id@, 0) {
        Some(i) => s.update(i, t),
        None => s.push(t),
    }
}

/// Where the search for `id` from `k` ends: the first template from `k` on with that id.
proof fn lemma_template_index_props(s: Seq<VmTemplate>, id: Seq<char>, k: int)
    requires
        0 <= k,
    ensures
        match template_index(s, id, k) {
            Some(i) => k <= i < s.len() && s[i].id@ == id && forall|j: int| k <= j < i ==> s[j].id@ != id,
            None => forall|j: int| k <= j < s.len() ==> s[j].id@ != id,
        },
    decreases s.len() - k,
{
    if k < s.len() && s[k].id@ != id {
        lemma_template_index_props(s, id, k + 1);
    }
}

/// The search finds the first template with the id.
proof fn lemma_template_index_first(s: Seq<VmTemplate>, id: Seq<char>, i: int)
    requires
        0 <= i < s.len(),
        s[i].id@ == id,
        forall|j: int| 0 <= j < i ==> s[j].id@ != id,
    ensures
        template_index(s, id, 0) == Some(i),
{
    lemma_template_index_props(s, id, 0);
}

/// A template that was stored is read back as stored.
pub proof fn law_created_template_is_read_back(s: Seq<VmTemplate>, t: VmTemplate)
    ensures
        template_index(with_template(s, t), t.id@, 0) matches Some(i) && with_template(s, t)[i] == t,
{
    let id = t.id@;
    lemma_template_index_props(s, id, 0);
    let w = with_template(s, t);
    match template_index(s, id, 0) {
        Some(i) => {
            assert forall|j: int| 0 <= j < i implies w[j].id@ != id by {
                assert(w[j] == s[j]);
            }
            lemma_template_index_first(w, id, i);
        },
        None => {
            assert forall|j: int| 0 <= j < s.len() implies w[j].id@ != id by {
                assert(w[j] == s[j]);
            }
            lemma_template_index_first(w, id, s.len() as int);
        },
    }
}

/// A deleted template is no longer found, where ids are distinct.
pub proof fn law_deleted_template_is_gone(s: Seq<VmTemplate>, id: Seq<char>)
    requires
        template_ids_distinct(s),
        template_index(s, id, 0) is Some,
    ensures
        template_index(s.remove(template_index(s, id, 0)->0), id, 0) is None,
{
    lemma_template_index_props(s, id, 0);
    let i = template_index(s, id, 0)->0;
    let w = s.remove(i);
    assert forall|j: int| 0 <= j < w.len() implies w[j].id@ != id by {
        if j < i {
            assert(w[j] == s[j]);
        } else {
            assert(w[j] == s[j + 1]);
            assert(s[i].id@ != s[j + 1].id@);
        }
    }
    lemma_template_index_props(w, id, 0);
}

/// Storing, updating (keeping the id) and deleting keep the ids distinct.
pub proof fn law_template_ids_stay_distinct(s: Seq<VmTemplate>, t: VmTemplate, k: int, u: VmTemplate)
    requires
        template_ids_distinct(s),
    ensures
        template_ids_distinct(with_template(s, t)),
        0 <= k < s.len() && u.id@ == s[k].id@ ==> template_ids_distinct(s.update(k, u)),
        0 <= k < s.len() ==> template_ids_distinct(s.remove(k)),
{
    lemma_template_index_props(s, t.id@, 0);
    let w = with_template(s, t);
    assert forall|i: int, j: int| 0 <= i < j < w.len() implies (#[trigger] w[i]).id@ != (#[trigger] w[j]).id@ by {
        if template_index(s, t.id@, 0) is None && j == s.len() {
            assert(w[i] == s[i]);
        }
    }
    if 0 <= k < s.len() {
        let v = s.update(k, u);
        if u.id@ == s[k].id@ {
            assert forall|i: int, j: int| 0 <= i < j < v.len() implies (#[trigger] v[i]).id@ != (#[trigger] v[j]).id@ by {
                assert(v[i].id@ == s[i].id@ && v[j].id@ == s[j].id@);
            }
        }
        let d = s.remove(k);
        assert forall|i: int, j: int| 0 <= i < j < d.len() implies (#[trigger] d[i]).id@ != (#[trigger] d[j]).id@ by {
            let a = if i < k { i } else { i + 1 };
            let b = if j < k { j } else { j + 1 };
            assert(d[i] == s[a] && d[j] == s[b]);
        }
    }
}

/// The templates after storing each of `s` in turn.
pub open spec fn stored_templates(s: Seq<VmTemplate>) -> Seq<VmTemplate>
    decreases s.len(),
{
    if s.len() == 0 {
        Seq::empty()
    } else {
        with_template(stored_templates(s.drop_last()), s.last())
    }
}

/// Templates whose ids are already distinct are all kept, in their order.
pub proof fn law_distinct_templates_are_kept(s: Seq<VmTemplate>)
    requires
        template_ids_distinct(s),
    ensures
        stored_templates(s) == s,
    decreases s.len(),
{
    if s.len() > 0 {
        let p = s.drop_last();
        assert forall|i: int, j: int| 0 <= i < j < p.len() implies (#[trigger] p[i]).id@ != (#[trigger] p[j]).id@ by {
            assert(p[i] == s[i] && p[j] == s[j]);
        }
        law_distinct_templates_are_kept(p);
        lemma_template_index_props(p, s.last().id@, 0);
        if template_index(p, s.last().id@, 0) is Some {
            let k = template_index(p, s.last().id@, 0)->0;
            assert(p[k] == s[k]);
            assert(s[k].id@ != s[s.len() - 1].id@);
        }
        assert(p.push(s.last()) =~= s);
    }
}

fn position_in(v: &Vec<VmTemplate>, id: &str) -> (r: Option<usize>)
    ensures
        match r {
            Some(i) => template_index(v@, id@, 0) == Some(i as int) && i < v@.len(),
            None => template_index(v@, id@, 0) is None,
        },
{
    let n = v.len();
    let mut i: usize = 0;
    while i < n
        invariant
            n == v@.len(),
            i <= n,
            template_index(v@, id@, 0) == template_index(v@, id@, i as int),
        decreases n - i,
    {
        if str_eq(v[i].id.as_str(), id) {
            return Some(i);
        }
        i = i + 1;
    }
    None
}

/// Newest first.
pub open spec fn templates_newest_first(s: Seq<&VmTemplate>) -> bool {
    forall|i: int, j: int| 0 <= i < j < s.len() ==> (#[trigger] s[i]).created_at >= (#[trigger] s[j]).created_at
}

/// Template operations over the templates read from the configuration directory.
pub struct TemplateService {
    templates: Vec<VmTemplate>,
}

impl TemplateService {
    /// No two held templates share an id.
    #[verifier::type_invariant]
    spec fn ids_distinct(self) -> bool {
        template_ids_distinct(self.templates@)
    }

    /// A service over the templates read from the configuration directory, stored one
    /// after another: a later template takes the place of an earlier one with its id.
    pub fn from_templates(templates: Vec<VmTemplate>) -> (r: Self)
        ensures
            r@ == stored_templates(templates@),
            template_ids_distinct(r@),
    {
        let ghost all = templates@;
        let n = templates.len();
        let mut rest = templates;
        let mut items: Vec<VmTemplate> = Vec::new();
        while rest.len() > 0
            invariant
                rest@.len() + items@.len() == n,
                n == all.len(),
                forall|i: int| 0 <= i < rest@.len() ==> rest@[i] == all[i],
                forall|i: int| 0 <= i < items@.len() ==> items@[i] == all[n - 1 - i],
            decreases rest@.len(),
        {
            let x = rest.pop().unwrap();
            items.push(x);
        }
        let mut held: Vec<VmTemplate> = Vec::new();
        let mut k: usize = 0;
        proof {
            assert(all.take(0) =~= Seq::<VmTemplate>::empty());
        }
        while k < n
            invariant
                k <= n,
                n == all.len(),
                items@.len() == n - k,
                forall|i: int| 0 <= i < items@.len() ==> items@[i] == all[n - 1 - i],
                held@ == stored_templates(all.take(k as int)),
                template_ids_distinct(held@),
            decreases n - k,
        {
            let t = items.pop().unwrap();
            proof {
                assert(all.take(k + 1).drop_last() =~= all.take(k as int));
                assert(all.take(k + 1).last() == t);
                law_template_ids_stay_distinct(held@, t, 0, t);
            }
            let at = position_in(&held, t.id.as_str());
            match at {
                Some(i) => {
                    held.set(i, t);
                },
                None => {
                    held.push(t);
                },
            }
            k = k + 1;
        }
        proof {
            assert(all.take(n as int) =~= all);
        }
        TemplateService { templates: held }
    }

    pub closed spec fn view(&self) -> Seq<VmTemplate> {
        self.templates@
    }

    fn position(&self, id: &str) -> (r: Option<usize>)
        ensures
            match r {
                Some(i) => template_index(self@, id@, 0) == Some(i as int) && i < self@.len(),
                None => template_index(self@, id@, 0) is None,
            },
    {
        position_in(&self.templates, id)
    }

    /// The template with id `id`.
    pub fn get_template(&self, id: &str) -> (r: Result<&VmTemplate, AppError>)
        ensures
            match r {
                Ok(t) => template_index(self@, id@, 0) matches Some(i) && *t == self@[i],
                Err(e) => template_index(self@, id@, 0) is None && e is TemplateError,
            },
    {
        match self.position(id) {
            Some(i) => Ok(&self.templates[i]),
            None => {
                let mut m = String::from_str("Template not found: ");
                m.append(id);
                Err(AppError::TemplateError(m))
            },
        }
    }

    /// Stores a new template, created and updated at `now`, under a fresh id (over a
    /// template with that id, should there be one).
    pub fn create_template(&mut self, request: CreateTemplateRequest, now: i64) -> (r: &VmTemplate)
        ensures
            canonical_uuid(r.id@),
            r.name@ == request.name@,
            r.description@ == request.description@,
            r.config == request.config,
            r.created_at == now,
            r.updated_at == now,
            final(self)@ == with_template(old(self)@, *r),
    {
        proof {
            use_type_invariant(&*self);
        }
        let id = new_uuid();
        let at = self.position(id.as_str());
        let t = VmTemplate {
            id,
            name: request.name,
            description: request.description,
            config: request.config,
            created_at: now,
            updated_at: now,
        };
        let mut v: Vec<VmTemplate> = Vec::new();
        std::mem::swap(&mut v, &mut self.templates);
        proof {
            law_template_ids_stay_distinct(v@, t, 0, t);
        }
        let i = match at {
            Some(i) => {
                v.set(i, t);
                i
            },
            None => {
                v.push(t);
                v.len() - 1
            },
        };
        self.templates = v;
        &self.templates[i]
    }

    /// Replaces the name, description and configuration of a template, updated at `now`.
    pub fn update_template(&mut self, id: &str, request: CreateTemplateRequest, now: i64) -> (r: Result<
        (),
        AppError,
    >)
        ensures
            match r {
                Ok(()) => template_index(old(self)@, id@, 0) matches Some(i) && final(self)@.len() == old(self)@.len()
                    && final(self)@[i].id == old(self)@[i].id && final(self)@[i].name@ == request.name@
                    && final(self)@[i].description@ == request.description@ && final(self)@[i].config == request.config
                    && final(self)@[i].created_at == old(self)@[i].created_at && final(self)@[i].updated_at == now
                    && forall|k: int| 0 <= k < old(self)@.len() && k != i ==> final(self)@[k] == old(self)@[k],
                Err(e) => template_index(old(self)@, id@, 0) is None && e is TemplateError && final(self)@ == old(self)@,
            },
    {
        proof {
            use_type_invariant(&*self);
        }
        let i = match self.position(id) {
            Some(i) => i,
            None => {
                let mut m = String::from_str("Template not found: ");
                m.append(id);
                return Err(AppError::TemplateError(m));
            },
        };
        let mut v: Vec<VmTemplate> = Vec::new();
        std::mem::swap(&mut v, &mut self.templates);
        let ghost before = v@;
        let old_t = v.remove(i);
        let t = VmTemplate {
            id: old_t.id,
            name: request.name,
            description: request.description,
            config: request.config,
            created_at: old_t.created_at,
            updated_at: now,
        };
        v.insert(i, t);
        proof {
            assert(v@ =~= before.update(i as int, t));
            law_template_ids_stay_distinct(before, t, i as int, t);
        }
        self.templates = v;
        Ok(())
    }

    /// Deletes the template with id `id`.
    pub fn delete_template(&mut self, id: &str) -> (r: Result<(), AppError>)
        ensures
            match r {
                Ok(()) => template_index(old(self)@, id@, 0) matches Some(i) && final(self)@ == old(self)@.remove(i),
                Err(e) => template_index(old(self)@, id@, 0) is None && e is TemplateError && final(self)@ == old(self)@,
            },
            template_index(final(self)@, id@, 0) is None,
    {
        proof {
            use_type_invariant(&*self);
        }
        match self.position(id) {
            Some(i) => {
                let mut v: Vec<VmTemplate> = Vec::new();
                std::mem::swap(&mut v, &mut self.templates);
                let ghost before = v@;
                v.remove(i);
                proof {
                    law_template_ids_stay_distinct(before, before[i as int], i as int, before[i as int]);
                    law_deleted_template_is_gone(before, id@);
                }
                self.templates = v;
                Ok(())
            },
            None => {
                let mut m = String::from_str("Template not found: ");
                m.append(id);
                Err(AppError::TemplateError(m))
            },
        }
    }

    /// The templates, newest first.
    pub fn list_templates(&self) -> (r: Vec<&VmTemplate>)
        ensures
            templates_newest_first(r@),
            r@.to_multiset() == self@.map_values(|t: VmTemplate| &t).to_multiset(),
    {
        let mut out: Vec<&VmTemplate> = Vec::new();
        let n = self.templates.len();
        let ghost all = self@.map_values(|t: VmTemplate| &t);
        let mut i: usize = 0;
        proof {
            assert(all.subrange(0, 0) =~= Seq::<&VmTemplate>::empty());
            assert(out@ =~= Seq::<&VmTemplate>::empty());
        }
        while i < n
            invariant
                n == self.templates@.len(),
                all == self@.map_values(|t: VmTemplate| &t),
                i <= n,
                templates_newest_first(out@),
                out@.to_multiset() == all.subrange(0, i as int).to_multiset(),
            decreases n - i,
        {
            let x = &self.templates[i];
            let key = x.created_at;
            let m = out.len();
            let mut p: usize = 0;
            while p < m && out[p].created_at >= key
                invariant
                    m == out@.len(),
                    p <= m,
                    forall|k: int| 0 <= k < p ==> (#[trigger] out@[k]).created_at >= key,
                decreases m - p,
            {
                p = p + 1;
            }
            let ghost before = out@;
            out.insert(p, x);
            proof {
                assert(all.subrange(0, i as int + 1) =~= all.subrange(0, i as int).push(all[i as int]));
                assert(all[i as int] == x);
                vstd::seq_lib::to_multiset_insert(before, p as int, x);
                vstd::seq_lib::to_multiset_build(all.subrange(0, i as int), x);
                let after = out@;
                assert forall|a: int, b: int| 0 <= a < b < after.len() implies (#[trigger] after[a]).created_at >= (
                #[trigger] after[b]).created_at by {
                    if b < p {
                        assert(after[a] == before[a] && after[b] == before[b]);
                    } else if b == p {
                        assert(after[a] == before[a]);
                    } else if a < p {
                        assert(after[a] == before[a] && after[b] == before[b - 1]);
                    } else if a == p {
                        assert(after[b] == before[b - 1]);
                        if p < m {
                            assert(before[p as int].created_at < key);
                        }
                    } else {
                        assert(after[a] == before[a - 1] && after[b] == before[b - 1]);
                    }
                }
            }
            i = i + 1;
        }
        proof {
            assert(all.subrange(0, n as int) =~= all);
        }
        out
    }
}

} // verus!
