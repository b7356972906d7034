//! The store as a mathematical object: five tables of rows, the rules that
//! bind them, and the changes that each operation makes.
use vstd::prelude::*;
use crate::rows::{
    holds_id, ids_rise, keys_differ, Installation, InstallationRow, Package, PackageRow,
    PackageTag, PackageTagRow, PackageVersion, Tag, TagRow, VersionRow,
};

use crate::search::{first_hit, lemma_first_hit};

verus! {

/// The rows of the five tables, each in the order of insertion.
pub struct Store {
    pub packages: Seq<PackageRow>,
    pub versions: Seq<VersionRow>,
    pub installations: Seq<InstallationRow>,
    pub tags: Seq<TagRow>,
    pub package_tags: Seq<PackageTagRow>,
}

/// The store with no rows.
pub open spec fn empty_store() -> Store {
    Store {
        packages: Seq::empty(),
        versions: Seq::empty(),
        installations: Seq::empty(),
        tags: Seq::empty(),
        package_tags: Seq::empty(),
    }
}

/// The action written for an installation.
pub open spec fn install_text() -> Seq<char> {
    seq!['i', 'n', 's', 't', 'a', 'l', 'l']
}

/// The action written for a removal.
pub open spec fn uninstall_text() -> Seq<char> {
    seq!['u', 'n', 'i', 'n', 's', 't', 'a', 'l', 'l']
}

/// Whether `action` is one of the two that the store accepts.
pub open spec fn is_action(action: Seq<char>) -> bool {
    action == install_text() || action == uninstall_text()
}

impl Store {
    /// Where the package with this name and source stands.
    pub open spec fn package_at(self, name: Seq<char>, source: Seq<char>) -> Option<int> {
        first_hit(
            self.packages.len() as int,
            |i: int| self.packages[i].name == name && self.packages[i].source == source,
        )
    }

    /// Where this version of this package stands.
    pub open spec fn version_at(self, package_id: int, version: Seq<char>) -> Option<int> {
        first_hit(
            self.versions.len() as int,
            |i: int|
                self.versions[i].package_id == package_id && self.versions[i].version == version,
        )
    }

    /// Where the version with this id stands.
    pub open spec fn version_by_id(self, id: int) -> Option<int> {
        first_hit(self.versions.len() as int, |i: int| self.versions[i].id == id)
    }

    /// Where the tag with this name stands.
    pub open spec fn tag_at(self, name: Seq<char>) -> Option<int> {
        first_hit(self.tags.len() as int, |i: int| self.tags[i].name == name)
    }

    /// Where the tag with this id stands.
    pub open spec fn tag_by_id(self, id: int) -> Option<int> {
        first_hit(self.tags.len() as int, |i: int| self.tags[i].id == id)
    }

    /// Where the attachment of this tag to this package stands.
    pub open spec fn attachment_at(self, package_id: int, tag_id: int) -> Option<int> {
        first_hit(
            self.package_tags.len() as int,
            |i: int|
                self.package_tags[i].package_id == package_id && self.package_tags[i].tag_id
                    == tag_id,
        )
    }

    /// The id that the next package gets.
    pub open spec fn next_package_id(self) -> int {
        if self.packages.len() == 0 {
            1
        } else {
            self.packages.last().id + 1
        }
    }

    /// The id that the next version gets.
    pub open spec fn next_version_id(self) -> int {
        if self.versions.len() == 0 {
            1
        } else {
            self.versions.last().id + 1
        }
    }

    /// The id that the next installation gets.
    pub open spec fn next_installation_id(self) -> int {
        if self.installations.len() == 0 {
            1
        } else {
            self.installations.last().id + 1
        }
    }

    /// The id that the next tag gets.
    pub open spec fn next_tag_id(self) -> int {
        if self.tags.len() == 0 {
            1
        } else {
            self.tags.last().id + 1
        }
    }

    /// Ids are positive and grow along each table, so none occurs twice.
    pub open spec fn ids_ordered(self) -> bool {
        &&& forall|i: int| 0 <= i < self.packages.len() ==> 1 <= #[trigger] self.packages[i].id
        &&& forall|i: int, j: int|
            0 <= i < j < self.packages.len() ==> #[trigger] self.packages[i].id
                < #[trigger] self.packages[j].id
        &&& forall|i: int| 0 <= i < self.versions.len() ==> 1 <= #[trigger] self.versions[i].id
        &&& forall|i: int, j: int|
            0 <= i < j < self.versions.len() ==> #[trigger] self.versions[i].id
                < #[trigger] self.versions[j].id
        &&& forall|i: int|
            0 <= i < self.installations.len() ==> 1 <= #[trigger] self.installations[i].id
        &&& forall|i: int, j: int|
            0 <= i < j < self.installations.len() ==> #[trigger] self.installations[i].id
                < #[trigger] self.installations[j].id
        &&& forall|i: int| 0 <= i < self.tags.len() ==> 1 <= #[trigger] self.tags[i].id
        &&& forall|i: int, j: int|
            0 <= i < j < self.tags.len() ==> #[trigger] self.tags[i].id
                < #[trigger] self.tags[j].id
    }

    /// No two packages share name and source; no package has a version twice;
    /// no two tags share a name; no tag is attached to a package twice.
    pub open spec fn keys_unique(self) -> bool {
        &&& forall|i: int, j: int|
            0 <= i < j < self.packages.len() ==> !((#[trigger] self.packages[i]).name == (
            #[trigger] self.packages[j]).name && self.packages[i].source
                == self.packages[j].source)
        &&& forall|i: int, j: int|
            0 <= i < j < self.versions.len() ==> !((#[trigger] self.versions[i]).package_id == (
            #[trigger] self.versions[j]).package_id && self.versions[i].version
                == self.versions[j].version)
        &&& forall|i: int, j: int|
            0 <= i < j < self.tags.len() ==> (#[trigger] self.tags[i]).name != (
            #[trigger] self.tags[j]).name
        &&& forall|i: int, j: int|
            0 <= i < j < self.package_tags.len() ==> !((
            #[trigger] self.package_tags[i]).package_id == (
            #[trigger] self.package_tags[j]).package_id && self.package_tags[i].tag_id
                == self.package_tags[j].tag_id)
    }

    /// Whether a package has this id.
    pub open spec fn has_package(self, id: int) -> bool {
        exists|k: int| 0 <= k < self.packages.len() && (#[trigger] self.packages[k]).id == id
    }

    /// Whether a version has this id.
    pub open spec fn has_version(self, id: int) -> bool {
        exists|k: int| 0 <= k < self.versions.len() && (#[trigger] self.versions[k]).id == id
    }

    /// Whether a tag has this id.
    pub open spec fn has_tag(self, id: int) -> bool {
        exists|k: int| 0 <= k < self.tags.len() && (#[trigger] self.tags[k]).id == id
    }

    /// Every reference from one table into another names a row that is there.
    pub open spec fn references_hold(self) -> bool {
        &&& forall|i: int|
            0 <= i < self.versions.len() ==> self.has_package(
                (#[trigger] self.versions[i]).package_id,
            )
        &&& forall|i: int|
            0 <= i < self.installations.len() ==> self.has_version(
                (#[trigger] self.installations[i]).version_id,
            )
        &&& forall|i: int|
            0 <= i < self.package_tags.len() ==> self.has_package(
                (#[trigger] self.package_tags[i]).package_id,
            ) && self.has_tag(self.package_tags[i].tag_id)
    }

    /// `package_at` finds the first package with this name and source.
    pub proof fn lemma_package_at(self, name: Seq<char>, source: Seq<char>)
        ensures
            match self.package_at(name, source) {
                Some(i) => 0 <= i < self.packages.len() && self.packages[i].name == name
                    && self.packages[i].source == source && forall|j: int|
                    0 <= j < i ==> !((#[trigger] self.packages[j]).name == name
                        && self.packages[j].source == source),
                None => forall|j: int|
                    0 <= j < self.packages.len() ==> !((#[trigger] self.packages[j]).name
                        == name && self.packages[j].source == source),
            },
    {
        let hit = |i: int| self.packages[i].name == name && self.packages[i].source == source;
        lemma_first_hit(self.packages.len() as int, hit);
        assert(self.package_at(name, source) == first_hit(self.packages.len() as int, hit));
        assert forall|j: int| 0 <= j < self.packages.len() implies hit(j) == ((
        #[trigger] self.packages[j]).name == name && self.packages[j].source == source) by {}
    }

    /// `version_at` finds the first row of this version of this package.
    pub proof fn lemma_version_at(self, package_id: int, version: Seq<char>)
        ensures
            match self.version_at(package_id, version) {
                Some(i) => 0 <= i < self.versions.len() && self.versions[i].package_id
                    == package_id && self.versions[i].version == version && forall|j: int|
                    0 <= j < i ==> !((#[trigger] self.versions[j]).package_id == package_id
                        && self.versions[j].version == version),
                None => forall|j: int|
                    0 <= j < self.versions.len() ==> !((
                    #[trigger] self.versions[j]).package_id == package_id
                        && self.versions[j].version == version),
            },
    {
        let hit = |i: int|
            self.versions[i].package_id == package_id && self.versions[i].version == version;
        lemma_first_hit(self.versions.len() as int, hit);
        assert(self.version_at(package_id, version) == first_hit(
            self.versions.len() as int,
            hit,
        ));
        assert forall|j: int| 0 <= j < self.versions.len() implies hit(j) == ((
        #[trigger] self.versions[j]).package_id == package_id && self.versions[j].version
            == version) by {}
    }

    /// `version_by_id` finds the first version with this id.
    pub proof fn lemma_version_by_id(self, id: int)
        ensures
            match self.version_by_id(id) {
                Some(i) => 0 <= i < self.versions.len() && self.versions[i].id == id
                    && forall|j: int| 0 <= j < i ==> (#[trigger] self.versions[j]).id != id,
                None => forall|j: int|
                    0 <= j < self.versions.len() ==> (#[trigger] self.versions[j]).id != id,
            },
            self.version_by_id(id) is Some <==> self.has_version(id),
    {
        let hit = |i: int| self.versions[i].id == id;
        lemma_first_hit(self.versions.len() as int, hit);
        assert(self.version_by_id(id) == first_hit(self.versions.len() as int, hit));
        assert forall|j: int| 0 <= j < self.versions.len() implies hit(j) == ((
        #[trigger] self.versions[j]).id == id) by {}
    }

    /// `tag_at` finds the first tag with this name.
    pub proof fn lemma_tag_at(self, name: Seq<char>)
        ensures
            match self.tag_at(name) {
                Some(i) => 0 <= i < self.tags.len() && self.tags[i].name == name
                    && forall|j: int| 0 <= j < i ==> (#[trigger] self.tags[j]).name != name,
                None => forall|j: int|
                    0 <= j < self.tags.len() ==> (#[trigger] self.tags[j]).name != name,
            },
    {
        let hit = |i: int| self.tags[i].name == name;
        lemma_first_hit(self.tags.len() as int, hit);
        assert(self.tag_at(name) == first_hit(self.tags.len() as int, hit));
        assert forall|j: int| 0 <= j < self.tags.len() implies hit(j) == ((
        #[trigger] self.tags[j]).name == name) by {}
    }

    /// `tag_by_id` finds the first tag with this id.
    pub proof fn lemma_tag_by_id(self, id: int)
        ensures
            match self.tag_by_id(id) {
                Some(i) => 0 <= i < self.tags.len() && self.tags[i].id == id && forall|j: int|
                    0 <= j < i ==> (#[trigger] self.tags[j]).id != id,
                None => forall|j: int|
                    0 <= j < self.tags.len() ==> (#[trigger] self.tags[j]).id != id,
            },
            self.tag_by_id(id) is Some <==> self.has_tag(id),
    {
        let hit = |i: int| self.tags[i].id == id;
        lemma_first_hit(self.tags.len() as int, hit);
        assert(self.tag_by_id(id) == first_hit(self.tags.len() as int, hit));
        assert forall|j: int| 0 <= j < self.tags.len() implies hit(j) == ((
        #[trigger] self.tags[j]).id == id) by {}
    }

    /// `attachment_at` finds the first attachment of this tag to this package.
    pub proof fn lemma_attachment_at(self, package_id: int, tag_id: int)
        ensures
            match self.attachment_at(package_id, tag_id) {
                Some(i) => 0 <= i < self.package_tags.len() && self.package_tags[i].package_id
                    == package_id && self.package_tags[i].tag_id == tag_id,
                None => forall|j: int|
                    0 <= j < self.package_tags.len() ==> !((
                    #[trigger] self.package_tags[j]).package_id == package_id
                        && self.package_tags[j].tag_id == tag_id),
            },
    {
        let hit = |i: int|
            self.package_tags[i].package_id == package_id && self.package_tags[i].tag_id
                == tag_id;
        lemma_first_hit(self.package_tags.len() as int, hit);
        assert(self.attachment_at(package_id, tag_id) == first_hit(
            self.package_tags.len() as int,
            hit,
        ));
        assert forall|j: int| 0 <= j < self.package_tags.len() implies hit(j) == ((
        #[trigger] self.package_tags[j]).package_id == package_id
            && self.package_tags[j].tag_id == tag_id) by {}
    }

    /// Every id and every reference fits a signed 64-bit integer.
    pub open spec fn ids_fit(self) -> bool {
        &&& forall|i: int|
            0 <= i < self.packages.len() ==> i64::MIN <= (#[trigger] self.packages[i]).id
                <= i64::MAX
        &&& forall|i: int|
            0 <= i < self.versions.len() ==> i64::MIN <= (#[trigger] self.versions[i]).id
                <= i64::MAX && i64::MIN <= self.versions[i].package_id <= i64::MAX
        &&& forall|i: int|
            0 <= i < self.installations.len() ==> i64::MIN <= (
            #[trigger] self.installations[i]).id <= i64::MAX && i64::MIN
                <= self.installations[i].version_id <= i64::MAX
        &&& forall|i: int|
            0 <= i < self.tags.len() ==> i64::MIN <= (#[trigger] self.tags[i]).id <= i64::MAX
        &&& forall|i: int|
            0 <= i < self.package_tags.len() ==> i64::MIN <= (
            #[trigger] self.package_tags[i]).package_id <= i64::MAX && i64::MIN
                <= self.package_tags[i].tag_id <= i64::MAX
    }

    /// The rules on ids and keys, table by table.
    pub proof fn lemma_rules_by_table(self)
        ensures
            self.ids_ordered() <==> ids_rise::<Package>(self.packages) && ids_rise::<
                PackageVersion,
            >(self.versions) && ids_rise::<Installation>(self.installations) && ids_rise::<Tag>(
                self.tags,
            ),
            self.keys_unique() <==> keys_differ::<Package>(self.packages) && keys_differ::<
                PackageVersion,
            >(self.versions) && keys_differ::<Tag>(self.tags) && keys_differ::<PackageTag>(
                self.package_tags,
            ),
            forall|id: int| self.has_package(id) <==> holds_id::<Package>(self.packages, id),
            forall|id: int| self.has_version(id) <==> holds_id::<PackageVersion>(self.versions, id),
            forall|id: int| self.has_tag(id) <==> holds_id::<Tag>(self.tags, id),
    {
    }

    /// Every installation carries one of the two accepted actions.
    pub open spec fn actions_valid(self) -> bool {
        forall|i: int|
            0 <= i < self.installations.len() ==> is_action(
                (#[trigger] self.installations[i]).action,
            )
    }

    /// All the rules of the schema together.
    pub open spec fn consistent(self) -> bool {
        &&& self.ids_ordered()
        &&& self.keys_unique()
        &&& self.references_hold()
        &&& self.actions_valid()
    }

    /// The store after a package has been added.
    pub open spec fn with_package(
        self,
        name: Seq<char>,
        source: Seq<char>,
        description: Option<Seq<char>>,
    ) -> Store {
        Store {
            packages: self.packages.push(
                PackageRow { id: self.next_package_id(), name, source, description },
            ),
            ..self
        }
    }

    /// Adding a package that is not there yet keeps the rules.
    pub proof fn lemma_with_package(
        self,
        name: Seq<char>,
        source: Seq<char>,
        description: Option<Seq<char>>,
    )
        requires
            self.consistent(),
            self.package_at(name, source) is None,
        ensures
            self.with_package(name, source, description).consistent(),
    {
        let after = self.with_package(name, source, description);
        self.lemma_package_at(name, source);
        self.lemma_grown(after);
        assert(after.ids_ordered());
        assert(after.keys_unique());
        assert(after.references_hold());
    }

    /// Where the packages, versions and tags of `after` begin with those of
    /// `self`, every id that `self` has, `after` has too.
    pub proof fn lemma_grown(self, after: Store)
        requires
            self.packages.len() <= after.packages.len(),
            forall|k: int| 0 <= k < self.packages.len() ==> self.packages[k] == after.packages[k],
            self.versions.len() <= after.versions.len(),
            forall|k: int| 0 <= k < self.versions.len() ==> self.versions[k] == after.versions[k],
            self.tags.len() <= after.tags.len(),
            forall|k: int| 0 <= k < self.tags.len() ==> self.tags[k] == after.tags[k],
        ensures
            forall|id: int| self.has_package(id) ==> after.has_package(id),
            forall|id: int| self.has_version(id) ==> after.has_version(id),
            forall|id: int| self.has_tag(id) ==> after.has_tag(id),
    {
        assert forall|id: int| self.has_package(id) implies after.has_package(id) by {
            let k = choose|k: int|
                0 <= k < self.packages.len() && (#[trigger] self.packages[k]).id == id;
            assert(after.packages[k].id == id);
        }
        assert forall|id: int| self.has_version(id) implies after.has_version(id) by {
            let k = choose|k: int|
                0 <= k < self.versions.len() && (#[trigger] self.versions[k]).id == id;
            assert(after.versions[k].id == id);
        }
        assert forall|id: int| self.has_tag(id) implies after.has_tag(id) by {
            let k = choose|k: int| 0 <= k < self.tags.len() && (#[trigger] self.tags[k]).id == id;
            assert(after.tags[k].id == id);
        }
    }

    /// Adding a version that its package does not have yet keeps the rules.
    pub proof fn lemma_with_version(self, package_id: int, version: Seq<char>)
        requires
            self.consistent(),
            self.has_package(package_id),
            self.version_at(package_id, version) is None,
        ensures
            self.with_version(package_id, version).consistent(),
    {
        let after = self.with_version(package_id, version);
        self.lemma_version_at(package_id, version);
        assert(after.ids_ordered());
        assert(after.keys_unique());
        self.lemma_grown(after);
        assert forall|i: int| 0 <= i < after.versions.len() implies after.has_package(
            (#[trigger] after.versions[i]).package_id,
        ) by {
            if i < self.versions.len() {
                assert(after.versions[i] == self.versions[i]);
            }
        }
        assert(after.references_hold());
    }

    /// Logging an accepted action on a version that is there keeps the rules.
    pub proof fn lemma_with_installation(
        self,
        version_id: int,
        action: Seq<char>,
        timestamp: Seq<char>,
    )
        requires
            self.consistent(),
            self.has_version(version_id),
            is_action(action),
        ensures
            self.with_installation(version_id, action, timestamp).consistent(),
    {
        let after = self.with_installation(version_id, action, timestamp);
        assert(after.ids_ordered());
        self.lemma_grown(after);
        assert forall|i: int| 0 <= i < after.installations.len() implies after.has_version(
            (#[trigger] after.installations[i]).version_id,
        ) by {
            if i < self.installations.len() {
                assert(after.installations[i] == self.installations[i]);
            }
        }
        assert(after.references_hold());
        assert(after.actions_valid());
    }

    /// Creating a tag whose name is free keeps the rules.
    pub proof fn lemma_with_tag(self, name: Seq<char>)
        requires
            self.consistent(),
            self.tag_at(name) is None,
        ensures
            self.with_tag(name).consistent(),
            self.with_tag(name).has_tag(self.next_tag_id()),
            forall|id: int| self.has_package(id) ==> self.with_tag(name).has_package(id),
            forall|p: int, t: int|
                self.attachment_at(p, t) is None ==> self.with_tag(name).attachment_at(p, t)
                    is None,
    {
        let after = self.with_tag(name);
        self.lemma_tag_at(name);
        assert(after.ids_ordered());
        assert(after.keys_unique());
        self.lemma_grown(after);
        assert(after.references_hold());
        assert(after.tags[self.tags.len() as int].id == self.next_tag_id());
        assert forall|p: int, t: int| self.attachment_at(p, t) is None implies after.attachment_at(
            p,
            t,
        ) is None by {
            self.lemma_attachment_at(p, t);
            after.lemma_attachment_at(p, t);
        }
    }

    /// Attaching a tag to a package that does not carry it keeps the rules.
    pub proof fn lemma_with_attachment(self, package_id: int, tag_id: int)
        requires
            self.consistent(),
            self.has_package(package_id),
            self.has_tag(tag_id),
            self.attachment_at(package_id, tag_id) is None,
        ensures
            self.with_attachment(package_id, tag_id).consistent(),
    {
        let after = self.with_attachment(package_id, tag_id);
        self.lemma_attachment_at(package_id, tag_id);
        assert(after.keys_unique());
        self.lemma_grown(after);
        assert forall|i: int| 0 <= i < after.package_tags.len() implies after.has_package(
            (#[trigger] after.package_tags[i]).package_id,
        ) && after.has_tag(after.package_tags[i].tag_id) by {
            if i < self.package_tags.len() {
                assert(after.package_tags[i] == self.package_tags[i]);
            }
        }
        assert(after.references_hold());
    }

    /// No attachment names a tag that the store does not have.
    pub proof fn lemma_attachment_none(self, package_id: int, tag_id: int)
        requires
            self.consistent(),
            !self.has_tag(tag_id),
        ensures
            self.attachment_at(package_id, tag_id) is None,
    {
        self.lemma_attachment_at(package_id, tag_id);
    }

    /// Deleting the packages and all that hangs on them keeps the rules.
    pub proof fn lemma_cleared(self)
        requires
            self.consistent(),
        ensures
            self.cleared().consistent(),
    {
    }

    /// The store after a version has been added to a package.
    pub open spec fn with_version(self, package_id: int, version: Seq<char>) -> Store {
        Store {
            versions: self.versions.push(
                VersionRow { id: self.next_version_id(), package_id, version },
            ),
            ..self
        }
    }

    /// The store after an action on a version has been logged.
    pub open spec fn with_installation(
        self,
        version_id: int,
        action: Seq<char>,
        timestamp: Seq<char>,
    ) -> Store {
        Store {
            installations: self.installations.push(
                InstallationRow {
                    id: self.next_installation_id(),
                    version_id,
                    action,
                    timestamp,
                },
            ),
            ..self
        }
    }

    /// The store after a tag has been created.
    pub open spec fn with_tag(self, name: Seq<char>) -> Store {
        Store { tags: self.tags.push(TagRow { id: self.next_tag_id(), name }), ..self }
    }

    /// The store after a tag has been attached to a package.
    pub open spec fn with_attachment(self, package_id: int, tag_id: int) -> Store {
        Store {
            package_tags: self.package_tags.push(PackageTagRow { package_id, tag_id }),
            ..self
        }
    }

    /// The store after every package, and all that hangs on one, has been
    /// deleted. Tags live on.
    pub open spec fn cleared(self) -> Store {
        Store { tags: self.tags, ..empty_store() }
    }
}

} // verus!
