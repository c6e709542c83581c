//! The table of published packages, by name, with the scratch directory that
//! their files are kept in.
use tempfile::TempDir;
use vstd::prelude::*;
use crate::package::{Package, PublishedPackage};

verus! {

/// [`tempfile::TempDir`]: a directory that is deleted, with all that it
/// holds, when the value is dropped. Nothing is said of what is inside.
#[verifier::external_type_specification]
#[verifier::external_body]
pub struct ExTempDir(tempfile::TempDir);

/// A scratch directory: the directory itself, and its path.
pub type Scratch = (TempDir, String);

/// `entries[i]` is the entry of the package called `name`.
pub open spec fn named(entries: Seq<PublishedPackage>, i: int, name: Seq<char>) -> bool {
    0 <= i < entries.len() && entries[i].package.name@ == name
}

/// No two entries are of one name.
pub open spec fn names_differ(entries: Seq<PublishedPackage>) -> bool {
    forall|i: int, j: int, name: Seq<char>|
        #[trigger] named(entries, i, name) && #[trigger] named(entries, j, name) ==> i == j
}

/// The table that `entries` spell out: each name with its entry.
pub open spec fn table_of(entries: Seq<PublishedPackage>) -> Map<Seq<char>, PublishedPackage> {
    Map::new(
        |name: Seq<char>| exists|i: int| named(entries, i, name),
        |name: Seq<char>| entries[choose|i: int| named(entries, i, name)],
    )
}

/// `table` after each of `packages` was put in under its name, one after the
/// other: of two packages of one name the later one stays.
pub open spec fn with_all(
    table: Map<Seq<char>, PublishedPackage>,
    packages: Seq<PublishedPackage>,
) -> Map<Seq<char>, PublishedPackage>
    decreases packages.len(),
{
    if packages.len() == 0 {
        table
    } else {
        with_all(table, packages.drop_last()).insert(packages.last().package.name@, packages.last())
    }
}

proof fn lemma_table_lookup(entries: Seq<PublishedPackage>, i: int)
    requires
        names_differ(entries),
        0 <= i < entries.len(),
    ensures
        table_of(entries).contains_key(entries[i].package.name@),
        table_of(entries)[entries[i].package.name@] == entries[i],
{
    let name = entries[i].package.name@;
    assert(named(entries, i, name));
    let j = choose|j: int| named(entries, j, name);
    assert(named(entries, j, name));
}

proof fn lemma_table_update(entries: Seq<PublishedPackage>, i: int, package: PublishedPackage)
    requires
        names_differ(entries),
        named(entries, i, package.package.name@),
    ensures
        names_differ(entries.update(i, package)),
        table_of(entries.update(i, package)) == table_of(entries).insert(package.package.name@, package),
{
    let name = package.package.name@;
    let after = entries.update(i, package);
    assert forall|a: int, b: int, n: Seq<char>| #[trigger]
        named(after, a, n) && #[trigger] named(after, b, n) implies a == b by {
        assert(named(entries, a, n));
        assert(named(entries, b, n));
    }
    assert forall|n: Seq<char>| #[trigger]
        table_of(after).contains_key(n) <==> table_of(entries).insert(name, package).contains_key(n) by {
        if table_of(after).contains_key(n) {
            let a = choose|a: int| named(after, a, n);
            assert(named(entries, a, n));
        }
        if table_of(entries).insert(name, package).contains_key(n) {
            if n == name {
                assert(named(after, i, n));
            } else {
                let a = choose|a: int| named(entries, a, n);
                assert(named(after, a, n));
            }
        }
    }
    assert forall|n: Seq<char>| #[trigger] table_of(after).contains_key(n) implies table_of(after)[n]
        == table_of(entries).insert(name, package)[n] by {
        let a = choose|a: int| named(after, a, n);
        assert(named(entries, a, n));
        if n == name {
            assert(named(after, i, n));
        } else {
            lemma_table_lookup(entries, a);
        }
    }
    assert(table_of(after) =~= table_of(entries).insert(name, package));
}

proof fn lemma_table_push(entries: Seq<PublishedPackage>, package: PublishedPackage)
    requires
        names_differ(entries),
        forall|i: int| !named(entries, i, package.package.name@),
    ensures
        names_differ(entries.push(package)),
        table_of(entries.push(package)) == table_of(entries).insert(package.package.name@, package),
{
    let name = package.package.name@;
    let after = entries.push(package);
    let last = entries.len() as int;
    assert forall|a: int, b: int, n: Seq<char>| #[trigger]
        named(after, a, n) && #[trigger] named(after, b, n) implies a == b by {
        if a < last {
            assert(named(entries, a, n));
        }
        if b < last {
            assert(named(entries, b, n));
        }
    }
    assert forall|n: Seq<char>| #[trigger]
        table_of(after).contains_key(n) <==> table_of(entries).insert(name, package).contains_key(n) by {
        if table_of(after).contains_key(n) {
            let a = choose|a: int| named(after, a, n);
            if a < last {
                assert(named(entries, a, n));
            }
        }
        if table_of(entries).insert(name, package).contains_key(n) {
            if n == name {
                assert(named(after, last, n));
            } else {
                let a = choose|a: int| named(entries, a, n);
                assert(named(after, a, n));
            }
        }
    }
    assert forall|n: Seq<char>| #[trigger] table_of(after).contains_key(n) implies table_of(after)[n]
        == table_of(entries).insert(name, package)[n] by {
        let a = choose|a: int| named(after, a, n);
        if n == name {
            assert(named(after, last, n));
        } else {
            assert(named(entries, a, n));
            lemma_table_lookup(entries, a);
        }
    }
    assert(table_of(after) =~= table_of(entries).insert(name, package));
}

/// A collection of published packages, each under its name.
#[derive(Debug)]
pub struct PackagesCollection {
    packages: Vec<PublishedPackage>,
    /// Packages may be downloaded or checked out into a scratch directory.
    /// The directory is kept here, with its path, so that it is deleted
    /// when the collection is dropped.
    temp_dir: Option<Scratch>,
}

impl View for PackagesCollection {
    type V = Map<Seq<char>, PublishedPackage>;

    /// The published package under each name.
    closed spec fn view(&self) -> Map<Seq<char>, PublishedPackage> {
        table_of(self.packages@)
    }
}

impl PackagesCollection {
    #[verifier::type_invariant]
    spec fn well_formed(self) -> bool {
        names_differ(self.packages@)
    }

    /// The scratch directory that the collection owns, once it has one.
    pub closed spec fn scratch_dir(&self) -> Option<Scratch> {
        self.temp_dir
    }

    /// An empty collection, with no scratch directory yet.
    pub fn new() -> (collection: PackagesCollection)
        ensures
            collection@ == Map::<Seq<char>, PublishedPackage>::empty(),
            collection.scratch_dir() is None,
    {
        let collection = PackagesCollection { packages: Vec::new(), temp_dir: None };
        assert(collection@ =~= Map::<Seq<char>, PublishedPackage>::empty());
        collection
    }

    fn position(&self, name: &String) -> (at: Option<usize>)
        ensures
            match at {
                Some(i) => named(self.packages@, i as int, name@),
                None => forall|i: int| !named(self.packages@, i, name@),
            },
    {
        let mut i: usize = 0;
        while i < self.packages.len()
            invariant
                i <= self.packages.len(),
                forall|j: int| 0 <= j < i ==> !named(self.packages@, j, name@),
            decreases self.packages.len() - i,
        {
            if self.packages[i].package.name == *name {
                return Some(i);
            }
            i += 1;
        }
        None
    }

    /// The published package called `package_name`, if the collection holds one.
    pub fn get_published_package(&self, package_name: &str) -> (found: Option<&PublishedPackage>)
        ensures
            match found {
                Some(published) => self@.contains_key(package_name@) && self@[package_name@] == *published,
                None => !self@.contains_key(package_name@),
            },
            found matches Some(published) ==> published.package.name@ == package_name@,
    {
        proof {
            use_type_invariant(self);
        }
        let name = package_name.to_owned();
        match self.position(&name) {
            Some(i) => {
                proof {
                    lemma_table_lookup(self.packages@, i as int);
                }
                Some(&self.packages[i])
            },
            None => None,
        }
    }

    /// The manifest data of the published package called `package_name`, if
    /// the collection holds one.
    pub fn get_package(&self, package_name: &str) -> (found: Option<&Package>)
        ensures
            match found {
                Some(package) => self@.contains_key(package_name@) && self@[package_name@].package
                    == *package,
                None => !self@.contains_key(package_name@),
            },
            found matches Some(package) ==> package.name@ == package_name@,
    {
        match self.get_published_package(package_name) {
            Some(published) => Some(&published.package),
            None => None,
        }
    }

    /// The scratch directory, once the collection has one.
    pub fn temp_dir(&self) -> (dir: Option<&TempDir>)
        ensures
            match dir {
                Some(d) => self.scratch_dir() matches Some(scratch) && scratch.0 == *d,
                None => self.scratch_dir() is None,
            },
    {
        match &self.temp_dir {
            Some(scratch) => Some(&scratch.0),
            None => None,
        }
    }

    /// The path of the scratch directory, once the collection has one.
    pub fn temp_dir_path(&self) -> (path: Option<&String>)
        ensures
            match path {
                Some(p) => self.scratch_dir() matches Some(scratch) && scratch.1 == *p,
                None => self.scratch_dir() is None,
            },
    {
        match &self.temp_dir {
            Some(scratch) => Some(&scratch.1),
            None => None,
        }
    }

    /// Takes over the scratch directory `dir`, which lies at `path`, unless
    /// the collection has one already: a collection's scratch directory
    /// never changes. A directory that is not taken over is dropped.
    pub fn set_temp_dir(&mut self, dir: TempDir, path: String)
        ensures
            final(self).scratch_dir() == match old(self).scratch_dir() {
                Some(scratch) => Some(scratch),
                None => Some((dir, path)),
            },
            final(self)@ == old(self)@,
    {
        proof {
            use_type_invariant(&*self);
        }
        if self.temp_dir.is_none() {
            self.temp_dir = Some((dir, path));
        }
    }

    /// Puts `package` under its name; an earlier package of that name gives way.
    pub fn push(&mut self, package: PublishedPackage)
        ensures
            final(self)@ == old(self)@.insert(package.package.name@, package),
            final(self).scratch_dir() == old(self).scratch_dir(),
    {
        proof {
            use_type_invariant(&*self);
        }
        let at = self.position(&package.package.name);
        let ghost before = self.packages@;
        let mut entries: Vec<PublishedPackage> = Vec::new();
        std::mem::swap(&mut self.packages, &mut entries);
        match at {
            Some(i) => {
                proof {
                    lemma_table_update(before, i as int, package);
                }
                entries.set(i, package);
            },
            None => {
                proof {
                    lemma_table_push(before, package);
                }
                entries.push(package);
            },
        }
        self.packages = entries;
    }

    /// Puts each of `packages` under its name, in their order.
    pub fn extend(&mut self, packages: Vec<PublishedPackage>)
        ensures
            final(self)@ == with_all(old(self)@, packages@),
            final(self).scratch_dir() == old(self).scratch_dir(),
    {
        let ghost all = packages@;
        for package in it: packages
            invariant
                it.seq() == all,
                self@ == with_all(old(self)@, all.take(it.index())),
                self.scratch_dir() == old(self).scratch_dir(),
        {
            proof {
                assert(all.take(it.index() + 1).drop_last() == all.take(it.index()));
            }
            self.push(package);
        }
        proof {
            assert(all.take(all.len() as int) == all);
        }
    }
}

impl PackagesCollection {
    /// Every published package of a collection stands under its own name,
    /// and under no other.
    pub proof fn lemma_entries_stand_under_their_names(self, name: Seq<char>)
        requires
            self@.contains_key(name),
        ensures
            self@[name].package.name@ == name,
    {
        let i = choose|i: int| named(self.packages@, i, name);
        assert(named(self.packages@, i, name));
    }
}

/// After packages were put into a table, a name leads to the last of them
/// that is called so, exactly as it was put in; a name that none of them has
/// leads to what the table held before.
pub proof fn lemma_lookup_after_extend(
    table: Map<Seq<char>, PublishedPackage>,
    packages: Seq<PublishedPackage>,
    name: Seq<char>,
)
    ensures
        (forall|i: int| !named(packages, i, name)) ==> {
            &&& with_all(table, packages).contains_key(name) == table.contains_key(name)
            &&& table.contains_key(name) ==> with_all(table, packages)[name] == table[name]
        },
        forall|i: int|
            #[trigger] named(packages, i, name) && (forall|j: int| i < j ==> !named(packages, j, name)) ==> {
                &&& with_all(table, packages).contains_key(name)
                &&& with_all(table, packages)[name] == packages[i]
            },
    decreases packages.len(),
{
    if packages.len() > 0 {
        let rest = packages.drop_last();
        let last = packages.len() - 1;
        lemma_lookup_after_extend(table, rest, name);
        assert forall|i: int| named(rest, i, name) implies named(packages, i, name) by {}
        if forall|i: int| !named(packages, i, name) {
            assert forall|i: int| !named(rest, i, name) by {
                assert(!named(packages, i, name));
            }
            assert(!named(packages, last, name));
        }
        assert forall|i: int|
            #[trigger] named(packages, i, name) && (forall|j: int|
                i < j ==> !named(packages, j, name)) implies with_all(table, packages).contains_key(name)
            && with_all(table, packages)[name] == packages[i] by {
            if i < last {
                assert(!named(packages, last, name));
                assert(named(rest, i, name));
                assert forall|j: int| i < j implies !named(rest, j, name) by {
                    assert(!named(packages, j, name));
                }
            }
        }
    }
}

/// Packages of different names that were put into a table are all found
/// again under their names, each exactly as it was put in.
pub proof fn lemma_round_trip(
    table: Map<Seq<char>, PublishedPackage>,
    packages: Seq<PublishedPackage>,
    i: int,
)
    requires
        names_differ(packages),
        0 <= i < packages.len(),
    ensures
        with_all(table, packages).contains_key(packages[i].package.name@),
        with_all(table, packages)[packages[i].package.name@] == packages[i],
{
    let name = packages[i].package.name@;
    lemma_lookup_after_extend(table, packages, name);
    assert(named(packages, i, name));
    assert forall|j: int| i < j implies !named(packages, j, name) by {
        if named(packages, j, name) {
            assert(i == j);
        }
    }
}

/// After packages were put into a table, it holds something under a name
/// exactly where it did before or where one of the packages is called so.
pub proof fn lemma_names_after_extend(
    table: Map<Seq<char>, PublishedPackage>,
    packages: Seq<PublishedPackage>,
    name: Seq<char>,
)
    ensures
        with_all(table, packages).contains_key(name) <==> table.contains_key(name) || exists|i: int|
            named(packages, i, name),
    decreases packages.len(),
{
    if packages.len() > 0 {
        let rest = packages.drop_last();
        let last = packages.len() - 1;
        lemma_names_after_extend(table, rest, name);
        if exists|i: int| named(rest, i, name) {
            let i = choose|i: int| named(rest, i, name);
            assert(named(packages, i, name));
        }
        if exists|i: int| named(packages, i, name) {
            let i = choose|i: int| named(packages, i, name);
            if i < last {
                assert(named(rest, i, name));
            }
        }
        if packages[last].package.name@ == name {
            assert(named(packages, last, name));
        }
    }
}

} // verus!
