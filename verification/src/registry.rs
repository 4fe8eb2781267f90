//! The membership registry: the authoritative member and non-member
//! identifier sets of a session.
//!
//! A load replaces the whole registry at once or leaves it untouched;
//! there is no partial update. Records are partitioned by their flag,
//! keeping the first occurrence of each identifier, so the two sets
//! stay duplicate-free and disjoint.

use vstd::prelude::*;
use crate::cell::Cell;
use crate::cell::Sheet;
use crate::error::DataError;
use crate::extract::extract_registry_records;
use crate::extract::spec_registry_records;
use crate::numfmt::format_rate_label;
use crate::numfmt::rate_basis_points;
use crate::numfmt::spec_rate_bp;
use crate::numfmt::spec_rate_label;
use crate::report::CircleInfo;

verus! {

/// Partitions the records that remain into the accumulated member
/// and non-member sequences, keeping the first occurrence of each
/// identifier.
pub open spec fn spec_partition_rec(
    records: Seq<(i64, bool)>,
    members: Seq<i64>,
    non_members: Seq<i64>,
) -> (Seq<i64>, Seq<i64>)
    decreases records.len(),
{
    if records.len() == 0 {
        (members, non_members)
    } else {
        let id = records[0].0;
        let flag = records[0].1;
        if members.contains(id) || non_members.contains(id) {
            spec_partition_rec(records.drop_first(), members, non_members)
        } else if flag {
            spec_partition_rec(records.drop_first(), members.push(id), non_members)
        } else {
            spec_partition_rec(records.drop_first(), members, non_members.push(id))
        }
    }
}

/// The member and non-member identifier sequences that a record
/// sequence yields.
pub open spec fn spec_partition(records: Seq<(i64, bool)>) -> (Seq<i64>, Seq<i64>) {
    spec_partition_rec(records, Seq::empty(), Seq::empty())
}

/// Partitioning preserves freedom from duplicates and disjointness,
/// and adds at most one identifier per record.
pub proof fn lemma_partition_props(records: Seq<(i64, bool)>, members: Seq<i64>, non_members: Seq<i64>)
    requires
        members.no_duplicates(),
        non_members.no_duplicates(),
        members.disjoint(non_members),
    ensures
        ({
            let p = spec_partition_rec(records, members, non_members);
            &&& p.0.no_duplicates()
            &&& p.1.no_duplicates()
            &&& p.0.disjoint(p.1)
            &&& p.0.len() + p.1.len() <= members.len() + non_members.len() + records.len()
        }),
    decreases records.len(),
{
    if records.len() > 0 {
        let id = records[0].0;
        let flag = records[0].1;
        if members.contains(id) || non_members.contains(id) {
            lemma_partition_props(records.drop_first(), members, non_members);
        } else if flag {
            assert(members.push(id).no_duplicates()) by {
                assert forall|k: int| 0 <= k < members.len() implies members[k] != id by {
                    if members[k] == id {
                        assert(members.contains(id));
                    }
                }
            }
            assert(members.push(id).disjoint(non_members)) by {
                assert forall|k: int| 0 <= k < non_members.len() implies non_members[k] != id by {
                    if non_members[k] == id {
                        assert(non_members.contains(id));
                    }
                }
            }
            lemma_partition_props(records.drop_first(), members.push(id), non_members);
        } else {
            assert(non_members.push(id).no_duplicates()) by {
                assert forall|k: int| 0 <= k < non_members.len() implies non_members[k] != id by {
                    if non_members[k] == id {
                        assert(non_members.contains(id));
                    }
                }
            }
            assert(members.disjoint(non_members.push(id))) by {
                assert forall|k: int| 0 <= k < members.len() implies members[k] != id by {
                    if members[k] == id {
                        assert(members.contains(id));
                    }
                }
            }
            lemma_partition_props(records.drop_first(), members, non_members.push(id));
        }
    }
}

/// Whether `v` holds `x`.
fn contains_id(v: &Vec<i64>, x: i64) -> (r: bool)
    ensures
        r == v@.contains(x),
{
    let mut i: usize = 0;
    while i < v.len()
        invariant
            i <= v@.len(),
            forall|j: int| 0 <= j < i ==> v@[j] != x,
        decreases v@.len() - i,
    {
        if v[i] == x {
            return true;
        }
        i += 1;
    }
    false
}

/// Splits extracted registry records into member and non-member
/// identifier vectors, first occurrence winning.
fn partition_records(records: &Vec<(i64, bool)>) -> (r: (Vec<i64>, Vec<i64>))
    ensures
        r.0@ == spec_partition(records@).0,
        r.1@ == spec_partition(records@).1,
{
    let mut members: Vec<i64> = Vec::new();
    let mut non_members: Vec<i64> = Vec::new();
    let mut i: usize = 0;
    proof {
        assert(records@.subrange(0, records@.len() as int) =~= records@);
    }
    while i < records.len()
        invariant
            i <= records@.len(),
            spec_partition_rec(
                records@.subrange(i as int, records@.len() as int),
                members@,
                non_members@,
            ) == spec_partition(records@),
        decreases records@.len() - i,
    {
        let (id, flag) = records[i];
        proof {
            let rest = records@.subrange(i as int, records@.len() as int);
            assert(rest[0] == records@[i as int]);
            assert(rest.drop_first() =~= records@.subrange(i + 1, records@.len() as int));
        }
        if contains_id(&members, id) || contains_id(&non_members, id) {
        } else if flag {
            members.push(id);
        } else {
            non_members.push(id);
        }
        i += 1;
    }
    proof {
        assert(records@.subrange(records@.len() as int, records@.len() as int) =~= Seq::<
            (i64, bool),
        >::empty());
    }
    (members, non_members)
}

/// The membership registry: every identifier the reference
/// organization knows, split into members and non-members.
#[derive(Debug)]
pub struct GakuyukaiMembers {
    pub member_ids: Vec<i64>,
    pub non_member_ids: Vec<i64>,
}

impl GakuyukaiMembers {
    /// Each set is duplicate-free, the sets are disjoint, and the
    /// total count fits the count type.
    pub open spec fn wf(self) -> bool {
        &&& self.member_ids@.no_duplicates()
        &&& self.non_member_ids@.no_duplicates()
        &&& self.member_ids@.disjoint(self.non_member_ids@)
        &&& self.member_ids@.len() + self.non_member_ids@.len() <= i64::MAX
    }

    /// Loads a registry from the first worksheet of a registry
    /// source: extracts id/flag records, partitions them, and fails
    /// with an empty-data error if either resulting set is empty.
    pub fn load_gakuyukai_members(sheet: &Sheet, id_col: usize, is_col: usize) -> (r: Result<
        GakuyukaiMembers,
        DataError,
    >)
        requires
            sheet.well_formed(),
            sheet.rows@.len() <= i64::MAX,
        ensures
            match r {
                Ok(g) => {
                    let p = spec_partition(
                        spec_registry_records(sheet.rows@, id_col as int, is_col as int),
                    );
                    &&& id_col < sheet.width
                    &&& is_col < sheet.width
                    &&& g.member_ids@ == p.0
                    &&& g.non_member_ids@ == p.1
                    &&& p.0.len() > 0
                    &&& p.1.len() > 0
                    &&& g.wf()
                },
                Err(e) => {
                    let p = spec_partition(
                        spec_registry_records(sheet.rows@, id_col as int, is_col as int),
                    );
                    ||| (e == DataError::Schema && !(id_col < sheet.width && is_col < sheet.width))
                    ||| (e == DataError::EmptyData && id_col < sheet.width && is_col < sheet.width
                        && (p.0.len() == 0 || p.1.len() == 0))
                },
            },
    {
        let records = match extract_registry_records(sheet, id_col, is_col) {
            Ok(v) => v,
            Err(e) => {
                return Err(e);
            },
        };
        proof {
            crate::extract::lemma_registry_records_len(
                sheet.rows@,
                id_col as int,
                is_col as int,
            );
            lemma_partition_props(records@, Seq::empty(), Seq::empty());
        }
        let (members, non_members) = partition_records(&records);
        if members.len() == 0 || non_members.len() == 0 {
            return Err(DataError::EmptyData);
        }
        Ok(GakuyukaiMembers { member_ids: members, non_member_ids: non_members })
    }

    /// Loads into this registry: on success the whole state is
    /// replaced at once; on any error it is left exactly as it was.
    pub fn load_gakuyukai_members_self(&mut self, sheet: &Sheet, id_col: usize, is_col: usize) -> (r:
        Result<(), DataError>)
        requires
            sheet.well_formed(),
            sheet.rows@.len() <= i64::MAX,
        ensures
            match r {
                Ok(()) => {
                    let p = spec_partition(
                        spec_registry_records(sheet.rows@, id_col as int, is_col as int),
                    );
                    &&& id_col < sheet.width
                    &&& is_col < sheet.width
                    &&& final(self).member_ids@ == p.0
                    &&& final(self).non_member_ids@ == p.1
                    &&& p.0.len() > 0
                    &&& p.1.len() > 0
                    &&& final(self).wf()
                },
                Err(e) => {
                    let p = spec_partition(
                        spec_registry_records(sheet.rows@, id_col as int, is_col as int),
                    );
                    &&& *final(self) == *old(self)
                    &&& ((e == DataError::Schema && !(id_col < sheet.width && is_col
                        < sheet.width)) || (e == DataError::EmptyData && id_col < sheet.width
                        && is_col < sheet.width && (p.0.len() == 0 || p.1.len() == 0)))
                },
            },
    {
        match GakuyukaiMembers::load_gakuyukai_members(sheet, id_col, is_col) {
            Ok(g) => {
                *self = g;
                Ok(())
            },
            Err(e) => Err(e),
        }
    }

    /// How many identifiers the registry holds in all.
    pub fn get_total_member_count(&self) -> (r: i64)
        requires
            self.wf(),
        ensures
            r == self.member_ids@.len() + self.non_member_ids@.len(),
    {
        (self.member_ids.len() as i64) + (self.non_member_ids.len() as i64)
    }

    /// How many of them are members.
    pub fn get_gakuyukai_member_count(&self) -> (r: i64)
        requires
            self.wf(),
        ensures
            r == self.member_ids@.len(),
    {
        self.member_ids.len() as i64
    }

    /// The registry-wide membership rate in hundredths of a percent,
    /// rounded to nearest (ties up); never above ten thousand.
    pub fn get_gakuyukai_rate_basis_points(&self) -> (r: u64)
        requires
            self.wf(),
        ensures
            r == spec_rate_bp(
                self.member_ids@.len(),
                self.member_ids@.len() + self.non_member_ids@.len(),
            ),
            r <= 10000,
    {
        rate_basis_points(
            self.member_ids.len() as u64,
            (self.member_ids.len() as u64) + (self.non_member_ids.len() as u64),
        )
    }

    /// Whether `id` belongs to a member of the organization.
    pub fn contains(&self, id: i64) -> (r: bool)
        ensures
            r == self.member_ids@.contains(id),
    {
        contains_id(&self.member_ids, id)
    }

    /// A registry-wide summary in the shape of a circle report: the
    /// whole registry as one circle, with no roster attached.
    pub fn get_info(&self) -> (r: CircleInfo)
        requires
            self.wf(),
        ensures
            r.name@ == "学友会"@,
            r.file_path@ == ""@,
            r.member_count == self.member_ids@.len() + self.non_member_ids@.len(),
            r.gakuyukai_member_count == self.member_ids@.len(),
            r.rate_string@ == spec_rate_label(
                self.member_ids@.len(),
                self.member_ids@.len() + self.non_member_ids@.len(),
            ),
            r.member is None,
            r.wf(),
    {
        proof {
            reveal_strlit("");
            assert(""@ =~= Seq::<char>::empty());
        }
        let g = self.get_gakuyukai_member_count();
        let t = self.get_total_member_count();
        let rate_string = format_rate_label(g as u64, t as u64);
        CircleInfo {
            file_path: String::new(),
            name: "学友会".to_owned(),
            rate_string,
            member_count: t,
            gakuyukai_member_count: g,
            member: None,
        }
    }
}

impl Default for GakuyukaiMembers {
    /// The empty registry a session starts with.
    fn default() -> (r: Self)
        ensures
            r.member_ids@.len() == 0,
            r.non_member_ids@.len() == 0,
            r.wf(),
    {
        GakuyukaiMembers { member_ids: Vec::new(), non_member_ids: Vec::new() }
    }
}

/// A well-formed registry — every registry a successful load
/// produces — has disjoint member and non-member sets, and its
/// membership rate lies between zero and one: at most ten thousand
/// hundredths of a percent.
pub proof fn lemma_registry_invariants(g: GakuyukaiMembers)
    requires
        g.wf(),
    ensures
        g.member_ids@.disjoint(g.non_member_ids@),
        g.member_ids@.to_set().intersect(g.non_member_ids@.to_set()) =~= Set::<i64>::empty(),
        spec_rate_bp(g.member_ids@.len(), g.member_ids@.len() + g.non_member_ids@.len()) <= 10000,
{
    assert forall|x: i64|
        !(#[trigger] g.member_ids@.to_set().intersect(g.non_member_ids@.to_set()).contains(
            x,
        )) by {
        if g.member_ids@.contains(x) && g.non_member_ids@.contains(x) {
            let a = choose|a: int| 0 <= a < g.member_ids@.len() && g.member_ids@[a] == x;
            let b = choose|b: int|
                0 <= b < g.non_member_ids@.len() && g.non_member_ids@[b] == x;
            assert(g.member_ids@[a] != g.non_member_ids@[b]);
            assert(false);
        }
    }
    let m = g.member_ids@.len();
    let t = g.member_ids@.len() + g.non_member_ids@.len();
    if t > 0 {
        crate::numfmt::lemma_bp_bound(m, t);
    }
}

/// Loading twice from identical source data yields identical member
/// and non-member sets: the partition is a function of the records
/// alone.
pub proof fn lemma_load_idempotent(
    a: GakuyukaiMembers,
    b: GakuyukaiMembers,
    rows: Seq<Vec<Cell>>,
    id_col: int,
    is_col: int,
)
    requires
        a.member_ids@ == spec_partition(spec_registry_records(rows, id_col, is_col)).0,
        a.non_member_ids@ == spec_partition(spec_registry_records(rows, id_col, is_col)).1,
        b.member_ids@ == spec_partition(spec_registry_records(rows, id_col, is_col)).0,
        b.non_member_ids@ == spec_partition(spec_registry_records(rows, id_col, is_col)).1,
    ensures
        a.member_ids@ == b.member_ids@,
        a.non_member_ids@ == b.non_member_ids@,
        a.member_ids@.to_set() == b.member_ids@.to_set(),
        a.non_member_ids@.to_set() == b.non_member_ids@.to_set(),
{
}

} // verus!
