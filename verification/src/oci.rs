//! The fields of an OCI runtime configuration that the policy constrains.

use crate::text::{clone_strings, is_text_le, lemma_text_le_total, text_le, view_all};
use vstd::prelude::*;

verus! {

/// A mount of a container, found by its destination.
#[derive(Debug, PartialEq, Eq)]
pub struct Mount {
    pub destination: String,
    pub mount_type: String,
    pub source: String,
    pub options: Vec<String>,
}

/// What a mount holds, as plain sequences.
pub ghost struct MountView {
    pub destination: Seq<char>,
    pub mount_type: Seq<char>,
    pub source: Seq<char>,
    pub options: Seq<Seq<char>>,
}

impl View for Mount {
    type V = MountView;

    open spec fn view(&self) -> MountView {
        MountView {
            destination: self.destination@,
            mount_type: self.mount_type@,
            source: self.source@,
            options: view_all(self.options@),
        }
    }
}

impl Clone for Mount {
    fn clone(&self) -> (r: Self)
        ensures
            r@ == self@,
    {
        Mount {
            destination: self.destination.clone(),
            mount_type: self.mount_type.clone(),
            source: self.source.clone(),
            options: clone_strings(&self.options),
        }
    }
}

/// The user that a container process runs as.
#[derive(Debug, PartialEq, Eq)]
pub struct User {
    pub uid: u32,
    pub gid: u32,
    pub additional_gids: Vec<u32>,
    pub username: String,
}

/// What a user record holds, as plain values.
pub ghost struct UserView {
    pub uid: u32,
    pub gid: u32,
    pub additional_gids: Seq<u32>,
    pub username: Seq<char>,
}

impl View for User {
    type V = UserView;

    open spec fn view(&self) -> UserView {
        UserView {
            uid: self.uid,
            gid: self.gid,
            additional_gids: self.additional_gids@,
            username: self.username@,
        }
    }
}

impl User {
    /// The user of a process before anything has set it: root, no name.
    pub fn new() -> (r: Self)
        ensures
            r@ == (UserView {
                uid: 0,
                gid: 0,
                additional_gids: Seq::<u32>::empty(),
                username: Seq::<char>::empty(),
            }),
    {
        User { uid: 0, gid: 0, additional_gids: Vec::new(), username: String::new() }
    }
}

impl Clone for User {
    fn clone(&self) -> (r: Self)
        ensures
            r@ == self@,
    {
        let mut additional_gids: Vec<u32> = Vec::new();
        let mut i: usize = 0;
        while i < self.additional_gids.len()
            invariant
                i <= self.additional_gids.len(),
                additional_gids@ == self.additional_gids@.take(i as int),
            decreases self.additional_gids.len() - i,
        {
            additional_gids.push(self.additional_gids[i]);
            i += 1;
            assert(additional_gids@ =~= self.additional_gids@.take(i as int));
        }
        assert(self.additional_gids@.take(self.additional_gids.len() as int)
            =~= self.additional_gids@);
        User {
            uid: self.uid,
            gid: self.gid,
            additional_gids,
            username: self.username.clone(),
        }
    }
}

/// The capability sets of a container process.
#[derive(Debug, PartialEq, Eq)]
pub struct LinuxCapabilities {
    pub bounding: Vec<String>,
    pub effective: Vec<String>,
    pub inheritable: Vec<String>,
    pub permitted: Vec<String>,
    pub ambient: Vec<String>,
}

/// What the capability sets hold, as plain sequences.
pub ghost struct LinuxCapabilitiesView {
    pub bounding: Seq<Seq<char>>,
    pub effective: Seq<Seq<char>>,
    pub inheritable: Seq<Seq<char>>,
    pub permitted: Seq<Seq<char>>,
    pub ambient: Seq<Seq<char>>,
}

impl View for LinuxCapabilities {
    type V = LinuxCapabilitiesView;

    open spec fn view(&self) -> LinuxCapabilitiesView {
        LinuxCapabilitiesView {
            bounding: view_all(self.bounding@),
            effective: view_all(self.effective@),
            inheritable: view_all(self.inheritable@),
            permitted: view_all(self.permitted@),
            ambient: view_all(self.ambient@),
        }
    }
}

impl Clone for LinuxCapabilities {
    fn clone(&self) -> (r: Self)
        ensures
            r@ == self@,
    {
        LinuxCapabilities {
            bounding: clone_strings(&self.bounding),
            effective: clone_strings(&self.effective),
            inheritable: clone_strings(&self.inheritable),
            permitted: clone_strings(&self.permitted),
            ambient: clone_strings(&self.ambient),
        }
    }
}

/// The paths of `/proc` and `/sys` that a container may not see or may not
/// write.
#[derive(Debug, PartialEq, Eq)]
pub struct Linux {
    pub masked_paths: Vec<String>,
    pub readonly_paths: Vec<String>,
}

/// What the path lists hold, as plain sequences.
pub ghost struct LinuxView {
    pub masked_paths: Seq<Seq<char>>,
    pub readonly_paths: Seq<Seq<char>>,
}

impl View for Linux {
    type V = LinuxView;

    open spec fn view(&self) -> LinuxView {
        LinuxView {
            masked_paths: view_all(self.masked_paths@),
            readonly_paths: view_all(self.readonly_paths@),
        }
    }
}

impl Linux {
    /// No path masked, none read-only.
    pub fn new() -> (r: Self)
        ensures
            r@ == (LinuxView {
                masked_paths: Seq::<Seq<char>>::empty(),
                readonly_paths: Seq::<Seq<char>>::empty(),
            }),
    {
        let r = Linux { masked_paths: Vec::new(), readonly_paths: Vec::new() };
        assert(view_all(r.masked_paths@) =~= Seq::<Seq<char>>::empty());
        assert(view_all(r.readonly_paths@) =~= Seq::<Seq<char>>::empty());
        r
    }
}

impl Clone for Linux {
    fn clone(&self) -> (r: Self)
        ensures
            r@ == self@,
    {
        Linux {
            masked_paths: clone_strings(&self.masked_paths),
            readonly_paths: clone_strings(&self.readonly_paths),
        }
    }
}

/// Whether some mount of the list has the given destination.
pub open spec fn has_destination(mounts: Seq<MountView>, destination: Seq<char>) -> bool {
    exists|i: int| 0 <= i < mounts.len() && (#[trigger] mounts[i]).destination == destination
}

/// Whether no two mounts of the list share a destination.
pub open spec fn destinations_unique(mounts: Seq<MountView>) -> bool {
    forall|i: int, j: int|
        0 <= i < mounts.len() && 0 <= j < mounts.len() && i != j ==> (
        #[trigger] mounts[i]).destination != (#[trigger] mounts[j]).destination
}

/// The place of the first mount with the given destination, or the length
/// of the list where there is none.
pub open spec fn first_with_destination(mounts: Seq<MountView>, destination: Seq<char>) -> int
    decreases mounts.len(),
{
    if mounts.len() == 0 {
        0
    } else if mounts.first().destination == destination {
        0
    } else {
        1 + first_with_destination(mounts.drop_first(), destination)
    }
}

/// How many mounts of the list have the given destination.
pub open spec fn count_destination(mounts: Seq<MountView>, destination: Seq<char>) -> nat
    decreases mounts.len(),
{
    if mounts.len() == 0 {
        0
    } else {
        count_destination(mounts.drop_last(), destination) + if mounts.last().destination
            == destination {
            1nat
        } else {
            0nat
        }
    }
}

/// The list after a mount has been merged into it: the first mount with the
/// same destination takes the new type, source and options and keeps its
/// place; where there is none, the new mount goes to the end.
pub open spec fn upsert_mount(mounts: Seq<MountView>, mount: MountView) -> Seq<MountView> {
    let at = first_with_destination(mounts, mount.destination);
    if at < mounts.len() {
        mounts.update(at, mount)
    } else {
        mounts.push(mount)
    }
}

/// The first place of a destination lies within the list exactly when the
/// list has the destination; the mount there has it, and none before.
pub proof fn lemma_first_with_destination(mounts: Seq<MountView>, destination: Seq<char>)
    ensures
        0 <= first_with_destination(mounts, destination) <= mounts.len(),
        first_with_destination(mounts, destination) < mounts.len() <==> has_destination(
            mounts,
            destination,
        ),
        first_with_destination(mounts, destination) < mounts.len() ==> mounts[first_with_destination(
            mounts,
            destination,
        )].destination == destination,
        forall|i: int|
            0 <= i < first_with_destination(mounts, destination) ==> (
            #[trigger] mounts[i]).destination != destination,
    decreases mounts.len(),
{
    if mounts.len() > 0 {
        let rest = mounts.drop_first();
        lemma_first_with_destination(rest, destination);
        if mounts.first().destination == destination {
            assert(mounts[0].destination == destination);
        } else {
            let at = first_with_destination(rest, destination);
            if at < rest.len() {
                assert(mounts[at + 1] == rest[at]);
            }
            if has_destination(mounts, destination) {
                let i = choose|i: int|
                    0 <= i < mounts.len() && (#[trigger] mounts[i]).destination == destination;
                assert(rest[i - 1].destination == destination);
            }
            assert forall|i: int| 0 <= i < at + 1 implies (#[trigger] mounts[i]).destination
                != destination by {
                if i > 0 {
                    assert(rest[i - 1] == mounts[i]);
                }
            }
        }
    }
}

/// A list with one more mount at its end has unique destinations exactly
/// when the list had, and lacked the destination of the new mount; and it
/// has the destinations of the list and that of the new mount.
pub proof fn lemma_push_destinations(mounts: Seq<MountView>, mount: MountView)
    ensures
        destinations_unique(mounts.push(mount)) <==> destinations_unique(mounts)
            && !has_destination(mounts, mount.destination),
        forall|d: Seq<char>| #[trigger]
            has_destination(mounts.push(mount), d) <==> d == mount.destination || has_destination(
                mounts,
                d,
            ),
{
    let after = mounts.push(mount);
    if destinations_unique(after) {
        assert forall|i: int, j: int|
            0 <= i < mounts.len() && 0 <= j < mounts.len() && i != j implies (
        #[trigger] mounts[i]).destination != (#[trigger] mounts[j]).destination by {
            assert(after[i].destination != after[j].destination);
        }
        if has_destination(mounts, mount.destination) {
            let i = choose|i: int|
                0 <= i < mounts.len() && (#[trigger] mounts[i]).destination == mount.destination;
            assert(after[i].destination != after[mounts.len() as int].destination);
        }
    }
    if destinations_unique(mounts) && !has_destination(mounts, mount.destination) {
        assert forall|i: int, j: int|
            0 <= i < after.len() && 0 <= j < after.len() && i != j implies (
        #[trigger] after[i]).destination != (#[trigger] after[j]).destination by {
            if i < mounts.len() && j < mounts.len() {
                assert(mounts[i].destination != mounts[j].destination);
            } else if i < mounts.len() {
                assert(mounts[i].destination != mount.destination);
            } else {
                assert(mounts[j].destination != mount.destination);
            }
        }
    }
    assert forall|d: Seq<char>|
        has_destination(after, d) <==> d == mount.destination || has_destination(mounts, d) by {
        if has_destination(after, d) && d != mount.destination {
            let i = choose|i: int| 0 <= i < after.len() && (#[trigger] after[i]).destination == d;
            assert(mounts[i].destination == d);
        }
        if has_destination(mounts, d) {
            let i = choose|i: int|
                0 <= i < mounts.len() && (#[trigger] mounts[i]).destination == d;
            assert(after[i].destination == d);
        }
        if d == mount.destination {
            assert(after[mounts.len() as int].destination == d);
        }
    }
}

/// Merging a mount neither makes nor mends a repeated destination, and
/// adds the destination of the mount to those of the list.
pub proof fn lemma_upsert_destinations(mounts: Seq<MountView>, mount: MountView)
    ensures
        destinations_unique(upsert_mount(mounts, mount)) <==> destinations_unique(mounts),
        forall|d: Seq<char>| #[trigger]
            has_destination(upsert_mount(mounts, mount), d) <==> d == mount.destination
                || has_destination(mounts, d),
{
    lemma_first_with_destination(mounts, mount.destination);
    let at = first_with_destination(mounts, mount.destination);
    let after = upsert_mount(mounts, mount);
    if at < mounts.len() {
        assert forall|i: int| 0 <= i < mounts.len() implies (#[trigger] after[i]).destination
            == mounts[i].destination by {}
        if destinations_unique(mounts) {
            assert forall|i: int, j: int|
                0 <= i < after.len() && 0 <= j < after.len() && i != j implies (
            #[trigger] after[i]).destination != (#[trigger] after[j]).destination by {
                assert(mounts[i].destination != mounts[j].destination);
            }
        }
        if destinations_unique(after) {
            assert forall|i: int, j: int|
                0 <= i < mounts.len() && 0 <= j < mounts.len() && i != j implies (
            #[trigger] mounts[i]).destination != (#[trigger] mounts[j]).destination by {
                assert(after[i].destination != after[j].destination);
            }
        }
        assert forall|d: Seq<char>|
            has_destination(after, d) <==> d == mount.destination || has_destination(
                mounts,
                d,
            ) by {
            if has_destination(after, d) {
                let i = choose|i: int|
                    0 <= i < after.len() && (#[trigger] after[i]).destination == d;
                assert(mounts[i].destination == d);
            }
            if has_destination(mounts, d) {
                let i = choose|i: int|
                    0 <= i < mounts.len() && (#[trigger] mounts[i]).destination == d;
                assert(after[i].destination == d);
            }
            if d == mount.destination {
                assert(after[at].destination == d);
            }
        }
    } else {
        lemma_push_destinations(mounts, mount);
    }
}

/// The first mount of a list with the given destination, if there is one.
pub open spec fn mount_at(mounts: Seq<MountView>, destination: Seq<char>) -> Option<MountView> {
    if first_with_destination(mounts, destination) < mounts.len() {
        Some(mounts[first_with_destination(mounts, destination)])
    } else {
        None
    }
}

/// An index at which a destination stands, with no mount of that
/// destination before it, is the first place of the destination.
pub proof fn lemma_first_with_destination_is(
    mounts: Seq<MountView>,
    destination: Seq<char>,
    at: int,
)
    requires
        0 <= at <= mounts.len(),
        at < mounts.len() ==> mounts[at].destination == destination,
        forall|i: int| 0 <= i < at ==> (#[trigger] mounts[i]).destination != destination,
    ensures
        first_with_destination(mounts, destination) == at,
{
    lemma_first_with_destination(mounts, destination);
    let found = first_with_destination(mounts, destination);
    if found < at {
        assert(mounts[found].destination != destination);
    }
}

/// After a mount has been merged, the list has that mount at its
/// destination, and at every other destination the mount that it had.
pub proof fn lemma_mount_at_after_upsert(
    mounts: Seq<MountView>,
    mount: MountView,
    destination: Seq<char>,
)
    ensures
        mount_at(upsert_mount(mounts, mount), destination) == if destination == mount.destination {
            Some(mount)
        } else {
            mount_at(mounts, destination)
        },
{
    lemma_first_with_destination(mounts, mount.destination);
    lemma_first_with_destination(mounts, destination);
    let after = upsert_mount(mounts, mount);
    let at = first_with_destination(mounts, mount.destination);
    let other = first_with_destination(mounts, destination);
    if destination == mount.destination {
        assert forall|i: int| 0 <= i < at implies (#[trigger] after[i]).destination
            != destination by {
            assert(mounts[i].destination != destination);
        }
        lemma_first_with_destination_is(after, destination, at);
    } else {
        assert forall|i: int| 0 <= i < other implies (#[trigger] after[i]).destination
            != destination by {
            assert(mounts[i].destination != destination);
        }
        if other < mounts.len() {
            lemma_first_with_destination_is(after, destination, other);
        } else {
            assert forall|i: int| 0 <= i < after.len() implies (#[trigger] after[i]).destination
                != destination by {
                if i < mounts.len() {
                    assert(mounts[i].destination != destination);
                }
            }
            lemma_first_with_destination_is(after, destination, after.len() as int);
        }
    }
}

/// A list with unique destinations has each of them once, and any other
/// destination not at all.
pub proof fn lemma_count_when_unique(mounts: Seq<MountView>, destination: Seq<char>)
    requires
        destinations_unique(mounts),
    ensures
        count_destination(mounts, destination) == if has_destination(mounts, destination) {
            1nat
        } else {
            0nat
        },
    decreases mounts.len(),
{
    if mounts.len() > 0 {
        let front = mounts.drop_last();
        assert(destinations_unique(front)) by {
            assert forall|i: int, j: int|
                0 <= i < front.len() && 0 <= j < front.len() && i != j implies (
            #[trigger] front[i]).destination != (#[trigger] front[j]).destination by {
                assert(mounts[i].destination != mounts[j].destination);
            }
        }
        lemma_count_when_unique(front, destination);
        if has_destination(front, destination) {
            let i = choose|i: int|
                0 <= i < front.len() && (#[trigger] front[i]).destination == destination;
            assert(mounts[i].destination == destination);
            assert(mounts[i].destination != mounts[mounts.len() - 1].destination);
        }
        if has_destination(mounts, destination) {
            let i = choose|i: int|
                0 <= i < mounts.len() && (#[trigger] mounts[i]).destination == destination;
            if i < front.len() {
                assert(front[i].destination == destination);
            }
        }
        if mounts.last().destination == destination {
            assert(mounts[mounts.len() - 1].destination == destination);
        }
    }
}

/// A list that is ordered by destination, with one more mount at its
/// place: behind every mount whose destination does not come after its
/// own.
pub open spec fn insert_by_destination(mounts: Seq<MountView>, mount: MountView) -> Seq<MountView>
    decreases mounts.len(),
{
    if mounts.len() == 0 {
        seq![mount]
    } else if text_le(mounts.last().destination, mount.destination) {
        mounts.push(mount)
    } else {
        insert_by_destination(mounts.drop_last(), mount).push(mounts.last())
    }
}

/// The mounts of a list in the order of their destinations; mounts with
/// the same destination stay in the order in which the list has them.
pub open spec fn sort_by_destination(mounts: Seq<MountView>) -> Seq<MountView>
    decreases mounts.len(),
{
    if mounts.len() == 0 {
        mounts
    } else {
        insert_by_destination(sort_by_destination(mounts.drop_last()), mounts.last())
    }
}

/// Whether each mount of a list has a destination that does not come
/// after that of the next.
pub open spec fn ordered_by_destination(mounts: Seq<MountView>) -> bool {
    forall|i: int|
        0 <= i < mounts.len() - 1 ==> text_le(
            (#[trigger] mounts[i]).destination,
            mounts[i + 1].destination,
        )
}

/// Putting a mount at its place keeps a list ordered, makes it one mount
/// longer, and adds the mount to what the list holds.
pub proof fn lemma_insert_by_destination(mounts: Seq<MountView>, mount: MountView)
    ensures
        insert_by_destination(mounts, mount).len() == mounts.len() + 1,
        insert_by_destination(mounts, mount).to_multiset() == mounts.to_multiset().insert(mount),
        ordered_by_destination(mounts) ==> ordered_by_destination(
            insert_by_destination(mounts, mount),
        ),
        mounts.len() > 0 ==> insert_by_destination(mounts, mount).last() == if text_le(
            mounts.last().destination,
            mount.destination,
        ) {
            mount
        } else {
            mounts.last()
        },
        forall|d: Seq<char>| #[trigger]
            count_destination(insert_by_destination(mounts, mount), d) == count_destination(
                mounts,
                d,
            ) + if mount.destination == d {
                1nat
            } else {
                0nat
            },
    decreases mounts.len(),
{
    broadcast use vstd::seq_lib::group_to_multiset_ensures;

    let after = insert_by_destination(mounts, mount);
    if mounts.len() == 0 {
        assert(after.drop_last() =~= mounts);
        assert(after =~= mounts.push(mount));
        assert forall|d: Seq<char>| #[trigger]
            count_destination(after, d) == count_destination(mounts, d) + if mount.destination
                == d {
                1nat
            } else {
                0nat
            } by {
            assert(after.last() == mount);
        }
    } else if text_le(mounts.last().destination, mount.destination) {
        assert(after.drop_last() =~= mounts);
        assert forall|d: Seq<char>| #[trigger]
            count_destination(after, d) == count_destination(mounts, d) + if mount.destination
                == d {
                1nat
            } else {
                0nat
            } by {
            assert(after.last() == mount);
        }
        if ordered_by_destination(mounts) {
            assert forall|i: int| 0 <= i < after.len() - 1 implies text_le(
                (#[trigger] after[i]).destination,
                after[i + 1].destination,
            ) by {
                if i < mounts.len() - 1 {
                    assert(text_le(mounts[i].destination, mounts[i + 1].destination));
                }
            }
        }
    } else {
        let front = mounts.drop_last();
        let inner = insert_by_destination(front, mount);
        lemma_insert_by_destination(front, mount);
        assert(after.drop_last() =~= inner);
        assert(mounts =~= front.push(mounts.last()));
        assert(after.to_multiset() =~= mounts.to_multiset().insert(mount));
        assert forall|d: Seq<char>| #[trigger]
            count_destination(after, d) == count_destination(mounts, d) + if mount.destination
                == d {
                1nat
            } else {
                0nat
            } by {
            assert(after.last() == mounts.last());
            assert(count_destination(inner, d) == count_destination(front, d) + if mount.destination
                == d {
                1nat
            } else {
                0nat
            });
        }
        if ordered_by_destination(mounts) {
            assert(ordered_by_destination(front)) by {
                assert forall|i: int| 0 <= i < front.len() - 1 implies text_le(
                    (#[trigger] front[i]).destination,
                    front[i + 1].destination,
                ) by {
                    assert(text_le(mounts[i].destination, mounts[i + 1].destination));
                }
            }
            lemma_text_le_total(mounts.last().destination, mount.destination);
            if front.len() > 0 {
                assert(text_le(
                    mounts[front.len() - 1].destination,
                    mounts[front.len() - 1 + 1].destination,
                ));
            }
            assert forall|i: int| 0 <= i < after.len() - 1 implies text_le(
                (#[trigger] after[i]).destination,
                after[i + 1].destination,
            ) by {
                if i < inner.len() - 1 {
                    assert(text_le(inner[i].destination, inner[i + 1].destination));
                }
            }
        }
    }
}

/// The sorted list is ordered, as long as the list, and holds the same
/// mounts, each as often as the list holds it.
pub proof fn lemma_sort_by_destination(mounts: Seq<MountView>)
    ensures
        ordered_by_destination(sort_by_destination(mounts)),
        sort_by_destination(mounts).len() == mounts.len(),
        sort_by_destination(mounts).to_multiset() == mounts.to_multiset(),
        forall|d: Seq<char>| #[trigger]
            count_destination(sort_by_destination(mounts), d) == count_destination(mounts, d),
    decreases mounts.len(),
{
    broadcast use vstd::seq_lib::group_to_multiset_ensures;

    if mounts.len() > 0 {
        let front = mounts.drop_last();
        lemma_sort_by_destination(front);
        lemma_insert_by_destination(sort_by_destination(front), mounts.last());
        assert(mounts =~= front.push(mounts.last()));
        assert forall|d: Seq<char>| #[trigger]
            count_destination(sort_by_destination(mounts), d) == count_destination(mounts, d) by {
            assert(count_destination(sort_by_destination(front), d) == count_destination(
                front,
                d,
            ));
            assert(count_destination(
                insert_by_destination(sort_by_destination(front), mounts.last()),
                d,
            ) == count_destination(sort_by_destination(front), d) + if mounts.last().destination
                == d {
                1nat
            } else {
                0nat
            });
        }
    }
}

/// A list has unique destinations exactly when it has no destination more
/// than once.
pub proof fn lemma_unique_by_count(mounts: Seq<MountView>)
    ensures
        destinations_unique(mounts) <==> forall|d: Seq<char>|
            #[trigger] count_destination(mounts, d) <= 1,
    decreases mounts.len(),
{
    if destinations_unique(mounts) {
        assert forall|d: Seq<char>| #[trigger] count_destination(mounts, d) <= 1 by {
            lemma_count_when_unique(mounts, d);
        }
    }
    if forall|d: Seq<char>| #[trigger] count_destination(mounts, d) <= 1 {
        assert forall|i: int, j: int|
            0 <= i < mounts.len() && 0 <= j < mounts.len() && i != j implies (
        #[trigger] mounts[i]).destination != (#[trigger] mounts[j]).destination by {
            if mounts[i].destination == mounts[j].destination {
                lemma_count_of_two(mounts, i, j);
                assert(count_destination(mounts, mounts[i].destination) <= 1);
            }
        }
    }
}

/// A list that has a destination at two places has it at least twice.
pub proof fn lemma_count_of_two(mounts: Seq<MountView>, i: int, j: int)
    requires
        0 <= i < mounts.len(),
        0 <= j < mounts.len(),
        i != j,
        mounts[i].destination == mounts[j].destination,
    ensures
        count_destination(mounts, mounts[i].destination) >= 2,
    decreases mounts.len(),
{
    let d = mounts[i].destination;
    let front = mounts.drop_last();
    let last = mounts.len() - 1;
    if i < last && j < last {
        lemma_count_of_two(front, i, j);
    } else {
        let other = if i == last {
            j
        } else {
            i
        };
        lemma_count_of_one(front, other);
    }
}

/// A list that has a destination at some place has it at least once.
pub proof fn lemma_count_of_one(mounts: Seq<MountView>, i: int)
    requires
        0 <= i < mounts.len(),
    ensures
        count_destination(mounts, mounts[i].destination) >= 1,
    decreases mounts.len(),
{
    if i < mounts.len() - 1 {
        lemma_count_of_one(mounts.drop_last(), i);
    }
}

/// Sorting neither makes nor mends a repeated destination.
pub proof fn lemma_sort_keeps_unique(mounts: Seq<MountView>)
    ensures
        destinations_unique(sort_by_destination(mounts)) <==> destinations_unique(mounts),
{
    lemma_sort_by_destination(mounts);
    lemma_unique_by_count(mounts);
    lemma_unique_by_count(sort_by_destination(mounts));
    if forall|d: Seq<char>| #[trigger] count_destination(mounts, d) <= 1 {
        assert forall|d: Seq<char>| #[trigger]
            count_destination(sort_by_destination(mounts), d) <= 1 by {
            assert(count_destination(mounts, d) <= 1);
        }
    }
    if forall|d: Seq<char>| #[trigger] count_destination(sort_by_destination(mounts), d) <= 1 {
        assert forall|d: Seq<char>| #[trigger] count_destination(mounts, d) <= 1 by {
            assert(count_destination(sort_by_destination(mounts), d) <= 1);
        }
    }
}

/// Puts a mount at its place in a list that is ordered by destination.
fn insert_mount(mounts: &mut Vec<Mount>, mount: Mount)
    ensures
        view_all(final(mounts)@) == insert_by_destination(view_all(old(mounts)@), mount@),
{
    let ghost before = view_all(mounts@);
    let mut j: usize = mounts.len();
    assert(before.take(j as int) =~= before);
    assert(before.skip(j as int) =~= Seq::<MountView>::empty());
    assert(insert_by_destination(before, mount@) + Seq::<MountView>::empty()
        =~= insert_by_destination(before, mount@));
    while j > 0 && !is_text_le(mounts[j - 1].destination.as_str(), mount.destination.as_str())
        invariant
            j <= mounts.len(),
            before == view_all(mounts@),
            insert_by_destination(before, mount@) == insert_by_destination(
                before.take(j as int),
                mount@,
            ) + before.skip(j as int),
        decreases j,
    {
        let ghost front = before.take(j as int);
        assert(front.last() == before[j - 1]);
        assert(front.drop_last() =~= before.take(j - 1));
        assert(insert_by_destination(front, mount@) == insert_by_destination(
            before.take(j - 1),
            mount@,
        ).push(before[j - 1]));
        assert(insert_by_destination(before.take(j - 1), mount@).push(before[j - 1])
            + before.skip(j as int) =~= insert_by_destination(before.take(j - 1), mount@)
            + before.skip(j - 1));
        j -= 1;
    }
    let ghost view = mount@;
    proof {
        let front = before.take(j as int);
        if j > 0 {
            assert(front.last() == before[j - 1]);
        }
        assert(insert_by_destination(front, view) =~= front.push(view));
    }
    mounts.insert(j, mount);
    assert(view_all(mounts@) =~= before.take(j as int).push(view) + before.skip(j as int));
}

/// The mounts of a list in the order of their destinations. Mounts with
/// the same destination stay in the order in which the list has them.
pub fn sort_mounts(mounts: &Vec<Mount>) -> (sorted: Vec<Mount>)
    ensures
        view_all(sorted@) == sort_by_destination(view_all(mounts@)),
{
    let ghost all = view_all(mounts@);
    let mut sorted: Vec<Mount> = Vec::new();
    let mut i: usize = 0;
    assert(all.take(0) =~= Seq::<MountView>::empty());
    assert(view_all(sorted@) =~= Seq::<MountView>::empty());
    while i < mounts.len()
        invariant
            i <= mounts.len(),
            all == view_all(mounts@),
            view_all(sorted@) == sort_by_destination(all.take(i as int)),
        decreases mounts.len() - i,
    {
        assert(all.take(i as int + 1).drop_last() =~= all.take(i as int));
        assert(all.take(i as int + 1).last() == mounts@[i as int]@);
        insert_mount(&mut sorted, mounts[i].clone());
        i += 1;
    }
    assert(all.take(all.len() as int) =~= all);
    sorted
}

} // verus!
