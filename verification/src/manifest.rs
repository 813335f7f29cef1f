use vstd::prelude::*;

verus! {

/// The view of an optional string slice.
pub open spec fn opt_str(o: Option<&str>) -> Option<Seq<char>> {
    match o {
        Some(s) => Some(s@),
        None => None,
    }
}

/// The view of an optional string.
pub open spec fn opt_string(o: Option<String>) -> Option<Seq<char>> {
    match o {
        Some(s) => Some(s@),
        None => None,
    }
}

fn opt_as_str(o: &Option<String>) -> (r: Option<&str>)
    ensures
        opt_str(r) == opt_string(*o),
{
    match o {
        Some(s) => Some(s.as_str()),
        None => None,
    }
}

/// The `[package]` table of a `Forge.toml`.
#[derive(Debug)]
pub struct PackageMeta {
    pub name: String,
    pub version: String,
    pub edition: Option<String>,
    pub authors: Option<Vec<String>>,
    pub license: Option<String>,
    pub description: Option<String>,
}

/// A dependency given either as a version requirement or as a detailed table.
#[derive(Debug)]
pub struct DetailedDependency {
    pub version: Option<String>,
    pub path: Option<String>,
    pub git: Option<String>,
    pub branch: Option<String>,
}

impl Default for DetailedDependency {
    fn default() -> (r: Self)
        ensures
            r.version is None,
            r.path is None,
            r.git is None,
            r.branch is None,
    {
        DetailedDependency { version: None, path: None, git: None, branch: None }
    }
}

#[derive(Debug)]
pub enum DependencySpec {
    Version(String),
    Detailed(DetailedDependency),
}

impl DependencySpec {
    pub open spec fn version_req_spec(&self) -> Option<Seq<char>> {
        match self {
            DependencySpec::Version(v) => Some(v@),
            DependencySpec::Detailed(d) => opt_string(d.version),
        }
    }

    pub open spec fn path_spec(&self) -> Option<Seq<char>> {
        match self {
            DependencySpec::Version(_) => None,
            DependencySpec::Detailed(d) => opt_string(d.path),
        }
    }

    pub open spec fn git_spec(&self) -> Option<Seq<char>> {
        match self {
            DependencySpec::Version(_) => None,
            DependencySpec::Detailed(d) => opt_string(d.git),
        }
    }

    /// The version requirement: the plain form's string, or the table's `version`.
    pub fn version_req(&self) -> (r: Option<&str>)
        ensures
            opt_str(r) == self.version_req_spec(),
    {
        match self {
            DependencySpec::Version(v) => Some(v.as_str()),
            DependencySpec::Detailed(d) => opt_as_str(&d.version),
        }
    }

    /// The local path of a detailed dependency.
    pub fn path(&self) -> (r: Option<&str>)
        ensures
            opt_str(r) == self.path_spec(),
    {
        match self {
            DependencySpec::Version(_) => None,
            DependencySpec::Detailed(d) => opt_as_str(&d.path),
        }
    }

    /// The git source of a detailed dependency.
    pub fn git(&self) -> (r: Option<&str>)
        ensures
            opt_str(r) == self.git_spec(),
    {
        match self {
            DependencySpec::Version(_) => None,
            DependencySpec::Detailed(d) => opt_as_str(&d.git),
        }
    }
}

/// The dependency table a list of entries denotes: a later entry for a name replaces an
/// earlier one.
pub open spec fn deps_map(v: Seq<(String, DependencySpec)>) -> Map<Seq<char>, DependencySpec>
    decreases v.len(),
{
    if v.len() == 0 {
        Map::empty()
    } else {
        deps_map(v.drop_last()).insert(v.last().0@, v.last().1)
    }
}

/// A `Forge.toml` package manifest.
#[derive(Debug)]
pub struct Manifest {
    pub package: PackageMeta,
    /// Dependency entries in insertion order; `deps_map` gives the table they denote.
    pub dependencies: Vec<(String, DependencySpec)>,
}

impl Manifest {
    /// The dependency table, by name.
    pub open spec fn deps(&self) -> Map<Seq<char>, DependencySpec> {
        deps_map(self.dependencies@)
    }

    /// No dependency name has two entries.
    pub open spec fn wf(&self) -> bool {
        forall|i: int, j: int|
            0 <= i < j < self.dependencies@.len() ==> #[trigger] self.dependencies@[i].0@
                != #[trigger] self.dependencies@[j].0@
    }

    /// Adds the dependency `name`, replacing its earlier entry in place.
    pub fn add_dependency(&mut self, name: String, spec: DependencySpec)
        ensures
            final(self).deps() == old(self).deps().insert(name@, spec),
            final(self).package == old(self).package,
            final(self).dependencies@.len() == old(self).dependencies@.len() + if old(self).deps().contains_key(name@) {
                0int
            } else {
                1int
            },
            old(self).wf() ==> final(self).wf(),
    {
        let ghost key = name@;
        let ghost before = self.dependencies@;
        let mut k: usize = self.dependencies.len();
        while k > 0
            invariant
                k <= self.dependencies@.len(),
                self.dependencies@ == before,
                before == old(self).dependencies@,
                self.package == old(self).package,
                key == name@,
                forall|m: int| k <= m < before.len() ==> #[trigger] before[m].0@ != key,
            decreases k,
        {
            k = k - 1;
            let same = crate::effects::str_eq(self.dependencies[k].0.as_str(), name.as_str());
            if same {
                let ghost x = (name, spec);
                proof {
                    lemma_deps_last(before, k as int, key);
                    lemma_deps_update(before, k as int, x);
                }
                self.dependencies.set(k, (name, spec));
                assert(self.dependencies@ == before.update(k as int, x));
                return;
            }
        }
        proof {
            lemma_deps_last(before, -1, key);
        }
        self.dependencies.push((name, spec));
        assert(self.dependencies@.drop_last() =~= before);
    }

    /// The dependency named `name`, if any.
    pub fn dependency(&self, name: &str) -> (r: Option<&DependencySpec>)
        ensures
            match r {
                Some(d) => self.deps().contains_key(name@) && self.deps()[name@] == *d,
                None => !self.deps().contains_key(name@),
            },
    {
        let mut k = self.dependencies.len();
        assert(self.dependencies@.subrange(0, k as int) =~= self.dependencies@);
        while k > 0
            invariant
                k <= self.dependencies@.len(),
                forall|m: int| k <= m < self.dependencies@.len() ==> self.dependencies@[m].0@ != name@,
                deps_map(self.dependencies@).contains_key(name@) == deps_map(self.dependencies@.subrange(0, k as int)).contains_key(name@),
                deps_map(self.dependencies@).contains_key(name@) ==> deps_map(self.dependencies@)[name@] == deps_map(self.dependencies@.subrange(0, k as int))[name@],
            decreases k,
        {
            let e = &self.dependencies[k - 1];
            let ghost sub = self.dependencies@.subrange(0, k as int);
            assert(sub.drop_last() =~= self.dependencies@.subrange(0, k - 1));
            if crate::effects::str_eq(e.0.as_str(), name) {
                return Some(&e.1);
            }
            k = k - 1;
        }
        assert(deps_map(self.dependencies@.subrange(0, 0)) == Map::<Seq<char>, DependencySpec>::empty());
        None
    }
}

proof fn lemma_deps_last(v: Seq<(String, DependencySpec)>, i: int, p: Seq<char>)
    requires
        -1 <= i < v.len(),
        i >= 0 ==> v[i].0@ == p,
        forall|k: int| i < k < v.len() ==> #[trigger] v[k].0@ != p,
    ensures
        i >= 0 ==> deps_map(v).contains_key(p) && deps_map(v)[p] == v[i].1,
        i < 0 ==> !deps_map(v).contains_key(p),
    decreases v.len(),
{
    if v.len() > 0 && i < v.len() - 1 {
        lemma_deps_last(v.drop_last(), i, p);
    }
}

/// Replacing the last entry for a name rebinds that name.
proof fn lemma_deps_update(v: Seq<(String, DependencySpec)>, i: int, x: (String, DependencySpec))
    requires
        0 <= i < v.len(),
        v[i].0@ == x.0@,
        forall|k: int| i < k < v.len() ==> #[trigger] v[k].0@ != x.0@,
    ensures
        deps_map(v.update(i, x)) == deps_map(v).insert(x.0@, x.1),
    decreases v.len(),
{
    let u = v.update(i, x);
    if i == v.len() - 1 {
        assert(u.drop_last() =~= v.drop_last());
        assert(deps_map(u) =~= deps_map(v).insert(x.0@, x.1));
    } else {
        assert(u.drop_last() =~= v.drop_last().update(i, x));
        lemma_deps_update(v.drop_last(), i, x);
        assert(deps_map(u) =~= deps_map(v).insert(x.0@, x.1));
    }
}

/// In a manifest where no dependency name has two entries, there is one
/// entry per dependency.
pub proof fn lemma_wf_dependency_count(m: &Manifest)
    requires
        m.wf(),
    ensures
        m.dependencies@.len() == m.deps().dom().len(),
{
    lemma_deps_count(m.dependencies@);
}

proof fn lemma_deps_count(v: Seq<(String, DependencySpec)>)
    requires
        forall|i: int, j: int| 0 <= i < j < v.len() ==> #[trigger] v[i].0@ != #[trigger] v[j].0@,
    ensures
        deps_map(v).dom().finite(),
        deps_map(v).dom().len() == v.len(),
    decreases v.len(),
{
    if v.len() > 0 {
        let w = v.drop_last();
        assert forall|i: int, j: int| 0 <= i < j < w.len() implies #[trigger] w[i].0@ != #[trigger] w[j].0@ by {
            assert(v[i].0@ != v[j].0@);
        }
        lemma_deps_count(w);
        assert forall|k: int| -1 < k < w.len() implies #[trigger] w[k].0@ != v.last().0@ by {
            assert(v[k].0@ != v[v.len() - 1].0@);
        }
        lemma_deps_last(w, -1, v.last().0@);
    }
}

/// The table after adding a dependency maps it to the added spec and leaves every other
/// name as it was.
pub proof fn law_add_dependency_read(deps: Map<Seq<char>, DependencySpec>, name: Seq<char>, spec: DependencySpec, other: Seq<char>)
    ensures
        deps.insert(name, spec)[name] == spec,
        other != name ==> deps.insert(name, spec).contains_key(other) == deps.contains_key(other),
        other != name && deps.contains_key(other) ==> deps.insert(name, spec)[other] == deps[other],
{
}

} // verus!
