//! Rate computation: joining one circle's roster against the
//! registry, and aggregating the outcomes of a directory's worth of
//! candidate files into one report.

use vstd::prelude::*;
use crate::cell::Sheet;
use crate::error::DataError;
use crate::extract::lemma_roster_len;
use crate::extract::spec_roster;
use crate::extract::Student;
use crate::extract::Students;
use crate::numfmt::format_rate_label;
use crate::numfmt::spec_rate_label;
use crate::paths::check_excel_file_path;
use crate::paths::file_stem;
use crate::paths::spec_file_stem;
use crate::paths::spec_is_excel_file_path;
use crate::registry::GakuyukaiMembers;
use crate::report::CircleGakuyukaiRates;
use crate::report::CircleInfo;

verus! {

/// How many of the roster's identifiers belong to members.
pub open spec fn spec_member_count(roster: Seq<(i64, Seq<char>)>, members: Seq<i64>) -> nat
    decreases roster.len(),
{
    if roster.len() == 0 {
        0
    } else {
        spec_member_count(roster.drop_last(), members) + if members.contains(roster.last().0) {
            1nat
        } else {
            0nat
        }
    }
}

proof fn lemma_member_count_step(roster: Seq<(i64, Seq<char>)>, members: Seq<i64>, i: int)
    requires
        0 <= i < roster.len(),
    ensures
        spec_member_count(roster.take(i + 1), members) == spec_member_count(
            roster.take(i),
            members,
        ) + if members.contains(roster[i].0) {
            1nat
        } else {
            0nat
        },
{
    assert(roster.take(i + 1).drop_last() =~= roster.take(i));
    assert(roster.take(i + 1).last() == roster[i]);
}

/// What a successfully computed circle report holds: the source path
/// and the stem-derived name, the exact counts of the joined roster,
/// the label rendering their ratio, and the fully resolved roster.
pub open spec fn spec_circle_info_ok(
    registry: GakuyukaiMembers,
    path: Seq<char>,
    sheet: Sheet,
    id_col: int,
    name_col: int,
    info: CircleInfo,
) -> bool {
    let roster = spec_roster(sheet.rows@, id_col, name_col);
    &&& info.file_path@ == path
    &&& info.name@ == spec_file_stem(path)
    &&& info.member_count == roster.len()
    &&& info.gakuyukai_member_count == spec_member_count(roster, registry.member_ids@)
    &&& info.rate_string@ == spec_rate_label(
        spec_member_count(roster, registry.member_ids@),
        roster.len(),
    )
    &&& match info.member {
        Some(st) => st.matches_resolved(roster, registry.member_ids@),
        None => false,
    }
    &&& info.wf()
}

impl GakuyukaiMembers {
    /// Computes one circle's membership rate: checks that `path`
    /// names a supported file, extracts the roster from `sheet`,
    /// resolves each student's flag against the registry, and counts.
    /// Fails with an unsupported-format error on a wrong path, a
    /// schema error on a too-narrow sheet, and an empty-data error on
    /// a roster with zero valid rows — never a zero-total report.
    pub fn calculate_gakuyukai_rate(
        &self,
        path: &str,
        sheet: &Sheet,
        id_col: usize,
        name_col: usize,
    ) -> (r: Result<CircleInfo, DataError>)
        requires
            self.wf(),
            sheet.well_formed(),
            sheet.rows@.len() <= i64::MAX,
        ensures
            match r {
                Ok(info) => {
                    let roster = spec_roster(sheet.rows@, id_col as int, name_col as int);
                    &&& spec_is_excel_file_path(path@)
                    &&& id_col < sheet.width
                    &&& name_col < sheet.width
                    &&& roster.len() > 0
                    &&& info.member_count > 0
                    &&& spec_circle_info_ok(
                        *self,
                        path@,
                        *sheet,
                        id_col as int,
                        name_col as int,
                        info,
                    )
                },
                Err(e) => {
                    let roster = spec_roster(sheet.rows@, id_col as int, name_col as int);
                    ||| (e == DataError::UnsupportedFormat && !spec_is_excel_file_path(path@))
                    ||| (e == DataError::Schema && spec_is_excel_file_path(path@) && !(id_col
                        < sheet.width && name_col < sheet.width))
                    ||| (e == DataError::EmptyData && spec_is_excel_file_path(path@) && id_col
                        < sheet.width && name_col < sheet.width && roster.len() == 0)
                },
            },
    {
        if !check_excel_file_path(path) {
            return Err(DataError::UnsupportedFormat);
        }
        let st = match Students::load_circle_members(sheet, id_col, name_col) {
            Ok(s) => s,
            Err(e) => {
                return Err(e);
            },
        };
        let ghost roster = spec_roster(sheet.rows@, id_col as int, name_col as int);
        let total = st.students.len();
        if total == 0 {
            return Err(DataError::EmptyData);
        }
        proof {
            lemma_roster_len(sheet.rows@, id_col as int, name_col as int);
            assert(roster.take(0) =~= Seq::<(i64, Seq<char>)>::empty());
        }
        let mut resolved: Vec<Student> = Vec::new();
        let mut count: usize = 0;
        let mut i: usize = 0;
        while i < st.students.len()
            invariant
                st.matches_roster(roster),
                roster.len() == st.students@.len(),
                i <= roster.len(),
                count == spec_member_count(roster.take(i as int), self.member_ids@),
                count <= i,
                (Students { students: resolved }).matches_resolved(
                    roster.take(i as int),
                    self.member_ids@,
                ),
            decreases roster.len() - i,
        {
            let s = &st.students[i];
            let flag = self.contains(s.id);
            let name = s.name.clone();
            resolved.push(Student { id: s.id, name, is_gakuyukai: Some(flag) });
            if flag {
                count += 1;
            }
            proof {
                lemma_member_count_step(roster, self.member_ids@, i as int);
            }
            i += 1;
        }
        proof {
            assert(roster.take(roster.len() as int) =~= roster);
        }
        let rate_string = format_rate_label(count as u64, total as u64);
        Ok(
            CircleInfo {
                file_path: path.to_owned(),
                name: file_stem(path),
                rate_string,
                member_count: total as i64,
                gakuyukai_member_count: count as i64,
                member: Some(Students { students: resolved }),
            },
        )
    }
}

/// Whether a candidate file would yield a circle report: a supported
/// path, a readable sheet wide enough for both columns, and at least
/// one valid roster row.
pub open spec fn spec_file_succeeds(
    path: Seq<char>,
    osheet: Option<Sheet>,
    id_col: int,
    name_col: int,
) -> bool {
    &&& spec_is_excel_file_path(path)
    &&& match osheet {
        Some(sh) => id_col < sh.width && name_col < sh.width && spec_roster(
            sh.rows@,
            id_col,
            name_col,
        ).len() > 0,
        None => false,
    }
}

/// How many of the candidate files would yield a circle report.
pub open spec fn spec_n_successes(
    files: Seq<(String, Option<Sheet>)>,
    id_col: int,
    name_col: int,
) -> nat
    decreases files.len(),
{
    if files.len() == 0 {
        0
    } else {
        spec_n_successes(files.drop_last(), id_col, name_col) + if spec_file_succeeds(
            files.last().0@,
            files.last().1,
            id_col,
            name_col,
        ) {
            1nat
        } else {
            0nat
        }
    }
}

/// There are never more successes than candidate files.
pub proof fn lemma_n_successes_le(files: Seq<(String, Option<Sheet>)>, id_col: int, name_col: int)
    ensures
        spec_n_successes(files, id_col, name_col) <= files.len(),
    decreases files.len(),
{
    if files.len() > 0 {
        lemma_n_successes_le(files.drop_last(), id_col, name_col);
    }
}

proof fn lemma_n_successes_step(
    files: Seq<(String, Option<Sheet>)>,
    id_col: int,
    name_col: int,
    i: int,
)
    requires
        0 <= i < files.len(),
    ensures
        spec_n_successes(files.take(i + 1), id_col, name_col) == spec_n_successes(
            files.take(i),
            id_col,
            name_col,
        ) + if spec_file_succeeds(files[i].0@, files[i].1, id_col, name_col) {
            1nat
        } else {
            0nat
        },
{
    assert(files.take(i + 1).drop_last() =~= files.take(i));
    assert(files.take(i + 1).last() == files[i]);
}

proof fn lemma_n_successes_mono(
    files: Seq<(String, Option<Sheet>)>,
    id_col: int,
    name_col: int,
    a: int,
    b: int,
)
    requires
        0 <= a <= b <= files.len(),
    ensures
        spec_n_successes(files.take(a), id_col, name_col) <= spec_n_successes(
            files.take(b),
            id_col,
            name_col,
        ),
        spec_n_successes(files.take(b), id_col, name_col) - spec_n_successes(
            files.take(a),
            id_col,
            name_col,
        ) <= b - a,
    decreases b - a,
{
    if a < b {
        lemma_n_successes_step(files, id_col, name_col, b - 1);
        lemma_n_successes_mono(files, id_col, name_col, a, b - 1);
    }
}

/// How candidate file `i` shows up in the aggregate report `r`: a
/// success as the next circle report, in candidate order; anything
/// else as its path among the failed paths, in candidate order.
pub open spec fn spec_entry_reported(
    registry: GakuyukaiMembers,
    files: Seq<(String, Option<Sheet>)>,
    id_col: int,
    name_col: int,
    r: CircleGakuyukaiRates,
    i: int,
) -> bool {
    let k = spec_n_successes(files.take(i), id_col, name_col);
    if spec_file_succeeds(files[i].0@, files[i].1, id_col, name_col) {
        match files[i].1 {
            Some(sh) => spec_circle_info_ok(
                registry,
                files[i].0@,
                sh,
                id_col,
                name_col,
                r.circles[k as int],
            ),
            None => false,
        }
    } else {
        r.error_file_path[i - k]@ == files[i].0@
    }
}

impl GakuyukaiMembers {
    /// Aggregates the candidate files of one directory: every file
    /// contributes exactly one outcome, either a circle report or its
    /// path among the failed paths, and one file's failure never
    /// disturbs another file's outcome. `None` stands for a file
    /// whose content could not be read.
    pub fn calculate_gakuyukai_rates(
        &self,
        files: &Vec<(String, Option<Sheet>)>,
        id_col: usize,
        name_col: usize,
    ) -> (r: CircleGakuyukaiRates)
        requires
            self.wf(),
            forall|i: int|
                0 <= i < files@.len() ==> match (#[trigger] files@[i]).1 {
                    Some(sh) => sh.well_formed() && sh.rows@.len() <= i64::MAX,
                    None => true,
                },
        ensures
            r.circles@.len() == spec_n_successes(files@, id_col as int, name_col as int),
            r.circles@.len() + r.error_file_path@.len() == files@.len(),
            forall|i: int|
                0 <= i < files@.len() ==> spec_entry_reported(
                    *self,
                    files@,
                    id_col as int,
                    name_col as int,
                    r,
                    i,
                ),
    {
        let mut rates = CircleGakuyukaiRates::new();
        let mut i: usize = 0;
        proof {
            assert(files@.take(0) =~= Seq::<(String, Option<Sheet>)>::empty());
        }
        while i < files.len()
            invariant
                self.wf(),
                forall|j: int|
                    0 <= j < files@.len() ==> match (#[trigger] files@[j]).1 {
                        Some(sh) => sh.well_formed() && sh.rows@.len() <= i64::MAX,
                        None => true,
                    },
                i <= files@.len(),
                rates.circles@.len() == spec_n_successes(
                    files@.take(i as int),
                    id_col as int,
                    name_col as int,
                ),
                rates.circles@.len() + rates.error_file_path@.len() == i,
                forall|j: int|
                    0 <= j < i ==> spec_entry_reported(
                        *self,
                        files@,
                        id_col as int,
                        name_col as int,
                        rates,
                        j,
                    ),
            decreases files@.len() - i,
        {
            let ghost prev = rates;
            let ghost k = spec_n_successes(files@.take(i as int), id_col as int, name_col as int);
            proof {
                lemma_n_successes_step(files@, id_col as int, name_col as int, i as int);
                lemma_n_successes_le(files@.take(i as int), id_col as int, name_col as int);
            }
            let ghost idc = id_col as int;
            let ghost namec = name_col as int;
            let path_ok = check_excel_file_path(files[i].0.as_str());
            if !path_ok {
                rates.push_error_file_path(files[i].0.clone());
                proof {
                    assert(!spec_file_succeeds(files@[i as int].0@, files@[i as int].1, idc, namec));
                    assert(spec_entry_reported(*self, files@, idc, namec, rates, i as int));
                }
            } else {
                match &files[i].1 {
                    None => {
                        rates.push_error_file_path(files[i].0.clone());
                        proof {
                            assert(!spec_file_succeeds(
                                files@[i as int].0@,
                                files@[i as int].1,
                                idc,
                                namec,
                            ));
                            assert(spec_entry_reported(*self, files@, idc, namec, rates, i as int));
                        }
                    },
                    Some(sh) => {
                        proof {
                            assert(files@[i as int].1 matches Some(s) && s == sh);
                        }
                        match self.calculate_gakuyukai_rate(
                            files[i].0.as_str(),
                            sh,
                            id_col,
                            name_col,
                        ) {
                            Ok(info) => {
                                rates.push(info);
                                proof {
                                    assert(spec_file_succeeds(
                                        files@[i as int].0@,
                                        files@[i as int].1,
                                        idc,
                                        namec,
                                    ));
                                    assert(rates.circles@[k as int] == info);
                                    assert(spec_entry_reported(
                                        *self,
                                        files@,
                                        idc,
                                        namec,
                                        rates,
                                        i as int,
                                    ));
                                }
                            },
                            Err(_) => {
                                rates.push_error_file_path(files[i].0.clone());
                                proof {
                                    assert(!spec_file_succeeds(
                                        files@[i as int].0@,
                                        files@[i as int].1,
                                        idc,
                                        namec,
                                    ));
                                    assert(spec_entry_reported(*self, files@, idc, namec, rates, i as int));
                                }
                            },
                        }
                    },
                }
            }
            proof {
                assert forall|j: int| 0 <= j < i + 1 implies spec_entry_reported(
                    *self,
                    files@,
                    idc,
                    namec,
                    rates,
                    j,
                ) by {
                    broadcast use vstd::seq::lemma_seq_push_index_different_alt;

                    if j < i {
                        assert(spec_entry_reported(*self, files@, idc, namec, prev, j));
                        lemma_n_successes_step(files@, idc, namec, j);
                        lemma_n_successes_mono(files@, idc, namec, j + 1, i as int);
                        lemma_n_successes_le(files@.take(j), idc, namec);
                        let kj = spec_n_successes(files@.take(j), idc, namec);
                        if spec_file_succeeds(files@[j].0@, files@[j].1, idc, namec) {
                            assert(kj < prev.circles@.len());
                            assert(rates.circles@[kj as int] == prev.circles@[kj as int]);
                        } else {
                            assert(j - kj < prev.error_file_path@.len());
                            assert(rates.error_file_path@[j - kj] == prev.error_file_path@[j
                                - kj]);
                        }
                    }
                }
            }
            i += 1;
        }
        proof {
            assert(files@.take(files@.len() as int) =~= files@);
        }
        rates
    }
}

/// Merges per-file outcomes, however they were computed and in
/// whatever order they finished, into one aggregate report: the
/// successes in outcome order, the failed files' paths in outcome
/// order, one entry per outcome.
pub fn collect_outcomes(outcomes: Vec<(String, Result<CircleInfo, DataError>)>) -> (r:
    CircleGakuyukaiRates)
    ensures
        r.circles@.len() + r.error_file_path@.len() == outcomes@.len(),
        forall|i: int| 0 <= i < outcomes@.len() ==> spec_outcome_reported(outcomes@, r, i),
        r.circles@.len() == spec_n_oks(outcomes@),
{
    let ghost all = outcomes@;
    let mut rest = outcomes;
    let n = rest.len();
    let mut rates = CircleGakuyukaiRates::new();
    let mut i: usize = 0;
    proof {
        assert(all.take(0) =~= Seq::<(String, Result<CircleInfo, DataError>)>::empty());
        assert(all.subrange(0, all.len() as int) =~= all);
    }
    while rest.len() > 0
        invariant
            n == all.len(),
            i + rest@.len() == all.len(),
            rest@ == all.subrange(i as int, all.len() as int),
            rates.circles@.len() == spec_n_oks(all.take(i as int)),
            rates.circles@.len() + rates.error_file_path@.len() == i,
            forall|j: int| 0 <= j < i ==> spec_outcome_reported(all, rates, j),
        decreases rest@.len(),
    {
        proof {
            lemma_n_oks_step(all, i as int);
            lemma_n_oks_le(all.take(i as int));
            assert(rest@[0] == all[i as int]);
            assert(rest@.drop_first() =~= all.subrange(i + 1, all.len() as int));
        }
        let ghost prev = rates;
        let ghost k = spec_n_oks(all.take(i as int));
        let (path, outcome) = rest.remove(0);
        match outcome {
            Ok(info) => {
                rates.push(info);
                proof {
                    assert(rates.circles@[k as int] == info);
                }
            },
            Err(_) => {
                rates.push_error_file_path(path);
            },
        }
        proof {
            assert(spec_outcome_reported(all, rates, i as int));
            assert forall|j: int| 0 <= j < i + 1 implies spec_outcome_reported(all, rates, j) by {
                broadcast use vstd::seq::lemma_seq_push_index_different_alt;

                if j < i {
                    assert(spec_outcome_reported(all, prev, j));
                    lemma_n_oks_step(all, j);
                    lemma_n_oks_mono(all, j + 1, i as int);
                    lemma_n_oks_le(all.take(j));
                    let kj = spec_n_oks(all.take(j));
                    if all[j].1 is Ok {
                        assert(kj < prev.circles@.len());
                        assert(rates.circles@[kj as int] == prev.circles@[kj as int]);
                    } else {
                        assert(j - kj < prev.error_file_path@.len());
                        assert(rates.error_file_path@[j - kj] == prev.error_file_path@[j - kj]);
                    }
                }
            }
        }
        i += 1;
    }
    proof {
        assert(all.take(all.len() as int) =~= all);
    }
    rates
}

/// How outcome `i` shows up in the merged report `r`: a success as
/// the next circle report, a failure as its path among the failed
/// paths, each in outcome order.
pub open spec fn spec_outcome_reported(
    outcomes: Seq<(String, Result<CircleInfo, DataError>)>,
    r: CircleGakuyukaiRates,
    i: int,
) -> bool {
    let k = spec_n_oks(outcomes.take(i));
    match outcomes[i].1 {
        Ok(info) => r.circles[k as int] == info,
        Err(_) => r.error_file_path[i - k]@ == outcomes[i].0@,
    }
}

/// How many outcomes carry a circle report.
pub open spec fn spec_n_oks(outcomes: Seq<(String, Result<CircleInfo, DataError>)>) -> nat
    decreases outcomes.len(),
{
    if outcomes.len() == 0 {
        0
    } else {
        spec_n_oks(outcomes.drop_last()) + if outcomes.last().1 is Ok {
            1nat
        } else {
            0nat
        }
    }
}

proof fn lemma_n_oks_le(outcomes: Seq<(String, Result<CircleInfo, DataError>)>)
    ensures
        spec_n_oks(outcomes) <= outcomes.len(),
    decreases outcomes.len(),
{
    if outcomes.len() > 0 {
        lemma_n_oks_le(outcomes.drop_last());
    }
}

proof fn lemma_n_oks_mono(outcomes: Seq<(String, Result<CircleInfo, DataError>)>, a: int, b: int)
    requires
        0 <= a <= b <= outcomes.len(),
    ensures
        spec_n_oks(outcomes.take(a)) <= spec_n_oks(outcomes.take(b)),
        spec_n_oks(outcomes.take(b)) - spec_n_oks(outcomes.take(a)) <= b - a,
    decreases b - a,
{
    if a < b {
        lemma_n_oks_step(outcomes, b - 1);
        lemma_n_oks_mono(outcomes, a, b - 1);
    }
}

proof fn lemma_n_oks_step(outcomes: Seq<(String, Result<CircleInfo, DataError>)>, i: int)
    requires
        0 <= i < outcomes.len(),
    ensures
        spec_n_oks(outcomes.take(i + 1)) == spec_n_oks(outcomes.take(i)) + if outcomes[i].1 is Ok {
            1nat
        } else {
            0nat
        },
{
    assert(outcomes.take(i + 1).drop_last() =~= outcomes.take(i));
    assert(outcomes.take(i + 1).last() == outcomes[i]);
}

} // verus!
