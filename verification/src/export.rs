//! Report serialization: the delimited-text rendering of an
//! aggregate report, and the sheet-name plan of its spreadsheet
//! rendering.
//!
//! The engine decides the content here — lines, fields, sheet names
//! and their constraints; a surrounding adapter only plays the
//! result into an output file.

use vstd::prelude::*;
use crate::error::DataError;
use crate::numfmt::spec_dec;
use crate::numfmt::u64_to_dec;
use crate::report::CircleGakuyukaiRates;
use crate::report::CircleInfo;

verus! {

/// One delimited-text line: circle name, rate label, total count,
/// member count, comma-separated and newline-terminated. Embedded
/// delimiters are not escaped: circle names come from file names.
pub open spec fn spec_csv_line(c: CircleInfo) -> Seq<char> {
    c.name@ + ","@ + c.rate_string@ + ","@ + spec_dec(c.member_count as nat) + ","@ + spec_dec(
        c.gakuyukai_member_count as nat,
    ) + "\n"@
}

/// The data lines of all circles, in report order.
pub open spec fn spec_csv_lines(circles: Seq<CircleInfo>) -> Seq<char>
    decreases circles.len(),
{
    if circles.len() == 0 {
        Seq::empty()
    } else {
        spec_csv_lines(circles.drop_last()) + spec_csv_line(circles.last())
    }
}

proof fn lemma_csv_lines_step(circles: Seq<CircleInfo>, i: int)
    requires
        0 <= i < circles.len(),
    ensures
        spec_csv_lines(circles.take(i + 1)) == spec_csv_lines(circles.take(i)) + spec_csv_line(
            circles[i],
        ),
{
    assert(circles.take(i + 1).drop_last() =~= circles.take(i));
    assert(circles.take(i + 1).last() == circles[i]);
}

impl CircleGakuyukaiRates {
    /// Renders the report as delimited text: one header line, then
    /// one line per circle in report order.
    pub fn to_csv_string(&self) -> (r: String)
        requires
            forall|i: int| 0 <= i < self.circles@.len() ==> (#[trigger] self.circles@[i]).wf(),
        ensures
            r@ == "サークル名,学友会員率,メンバー数,学友会員数\n"@ + spec_csv_lines(self.circles@),
    {
        let mut s = String::from_str("サークル名,学友会員率,メンバー数,学友会員数\n");
        let ghost header = s@;
        let mut i: usize = 0;
        proof {
            assert(self.circles@.take(0) =~= Seq::<CircleInfo>::empty());
        }
        while i < self.circles.len()
            invariant
                forall|j: int| 0 <= j < self.circles@.len() ==> (#[trigger] self.circles@[j]).wf(),
                i <= self.circles@.len(),
                header == "サークル名,学友会員率,メンバー数,学友会員数\n"@,
                s@ == header + spec_csv_lines(self.circles@.take(i as int)),
            decreases self.circles@.len() - i,
        {
            let c = &self.circles[i];
            proof {
                lemma_csv_lines_step(self.circles@, i as int);
            }
            let total = u64_to_dec(c.member_count as u64);
            let members = u64_to_dec(c.gakuyukai_member_count as u64);
            s.append(c.name.as_str());
            s.append(",");
            s.append(c.rate_string.as_str());
            s.append(",");
            s.append(total.as_str());
            s.append(",");
            s.append(members.as_str());
            s.append("\n");
            proof {
                assert(s@ =~= header + spec_csv_lines(self.circles@.take(i + 1)));
            }
            i += 1;
        }
        proof {
            assert(self.circles@.take(self.circles@.len() as int) =~= self.circles@);
        }
        s
    }
}

/// Whether a circle report carries a resolved roster, and so gets a
/// sheet of its own in the spreadsheet rendering.
pub open spec fn spec_rostered(c: CircleInfo) -> bool {
    c.member is Some
}

/// The sheet name a circle yields: its name, truncated to the
/// 31-character sheet-name limit of the spreadsheet format.
pub open spec fn spec_sheet_name(name: Seq<char>) -> Seq<char> {
    if name.len() > 31 {
        name.take(31)
    } else {
        name
    }
}

/// The sheet names of the rostered circles, in report order, or
/// nothing if a name collides with the summary sheet's name or with
/// an earlier circle's sheet name.
pub open spec fn spec_sheet_plan(circles: Seq<CircleInfo>) -> Option<Seq<Seq<char>>>
    decreases circles.len(),
{
    if circles.len() == 0 {
        Some(Seq::empty())
    } else {
        match spec_sheet_plan(circles.drop_last()) {
            None => None,
            Some(names) => if !spec_rostered(circles.last()) {
                Some(names)
            } else {
                let cand = spec_sheet_name(circles.last().name@);
                if cand == "サマリー"@ || names.contains(cand) {
                    None
                } else {
                    Some(names.push(cand))
                }
            },
        }
    }
}

proof fn lemma_sheet_plan_step(circles: Seq<CircleInfo>, i: int)
    requires
        0 <= i < circles.len(),
    ensures
        spec_sheet_plan(circles.take(i + 1)) == match spec_sheet_plan(circles.take(i)) {
            None => None::<Seq<Seq<char>>>,
            Some(names) => if !spec_rostered(circles[i]) {
                Some(names)
            } else {
                let cand = spec_sheet_name(circles[i].name@);
                if cand == "サマリー"@ || names.contains(cand) {
                    None
                } else {
                    Some(names.push(cand))
                }
            },
        },
{
    assert(circles.take(i + 1).drop_last() =~= circles.take(i));
    assert(circles.take(i + 1).last() == circles[i]);
}

/// Whether the vector's views are exactly the name sequence.
pub open spec fn spec_names_match(v: Seq<String>, names: Seq<Seq<char>>) -> bool {
    &&& v.len() == names.len()
    &&& forall|i: int| 0 <= i < names.len() ==> (#[trigger] v[i])@ == names[i]
}

fn truncate_name(name: &String) -> (r: String)
    ensures
        r@ == spec_sheet_name(name@),
{
    let n = name.as_str().unicode_len();
    if n > 31 {
        name.as_str().substring_char(0, 31).to_owned()
    } else {
        name.clone()
    }
}

fn names_contain(names: &Vec<String>, cand: &String) -> (r: bool)
    ensures
        r == spec_view_seq(names@).contains(cand@),
{
    let mut i: usize = 0;
    proof {
        assert(spec_view_seq(names@).len() == names@.len());
    }
    while i < names.len()
        invariant
            i <= names@.len(),
            forall|j: int| 0 <= j < i ==> (#[trigger] names@[j])@ != cand@,
        decreases names@.len() - i,
    {
        if names[i].eq(cand) {
            proof {
                assert(spec_view_seq(names@)[i as int] == cand@);
            }
            return true;
        }
        i += 1;
    }
    proof {
        assert forall|k: int| 0 <= k < spec_view_seq(names@).len() implies spec_view_seq(names@)[k]
            != cand@ by {
            assert(spec_view_seq(names@)[k] == names@[k]@);
        }
    }
    false
}

/// The views of a sequence of strings.
pub open spec fn spec_view_seq(v: Seq<String>) -> Seq<Seq<char>> {
    v.map_values(|s: String| s@)
}

impl CircleGakuyukaiRates {
    /// Plans the sheets of the spreadsheet rendering: one name per
    /// rostered circle, in report order, each truncated to the
    /// 31-character limit; fails with an export error exactly when a
    /// planned name collides with the summary sheet's name or with an
    /// earlier planned name.
    pub fn excel_sheet_names(&self) -> (r: Result<Vec<String>, DataError>)
        ensures
            match r {
                Ok(v) => {
                    &&& spec_sheet_plan(self.circles@) matches Some(names)
                    &&& spec_names_match(v@, spec_sheet_plan(self.circles@)->Some_0)
                },
                Err(e) => e == DataError::Export && spec_sheet_plan(self.circles@) is None,
            },
    {
        let mut names: Vec<String> = Vec::new();
        let mut i: usize = 0;
        proof {
            assert(self.circles@.take(0) =~= Seq::<CircleInfo>::empty());
        }
        while i < self.circles.len()
            invariant
                i <= self.circles@.len(),
                spec_sheet_plan(self.circles@.take(i as int)) matches Some(ns)
                    && spec_names_match(names@, ns),
            decreases self.circles@.len() - i,
        {
            let c = &self.circles[i];
            proof {
                lemma_sheet_plan_step(self.circles@, i as int);
            }
            if c.member.is_some() {
                let cand = truncate_name(&c.name);
                let summary = "サマリー".to_owned();
                if cand.eq(&summary) || names_contain(&names, &cand) {
                    proof {
                        let ns = spec_sheet_plan(self.circles@.take(i as int))->Some_0;
                        if spec_view_seq(names@).contains(cand@) {
                            let k = choose|k: int|
                                0 <= k < spec_view_seq(names@).len() && spec_view_seq(names@)[k]
                                    == cand@;
                            assert(ns[k] == cand@);
                            assert(ns.contains(cand@));
                        }
                        assert(spec_sheet_plan(self.circles@.take(i + 1)) is None);
                        lemma_sheet_plan_none(self.circles@, i + 1);
                    }
                    return Err(DataError::Export);
                }
                proof {
                    let ns = spec_sheet_plan(self.circles@.take(i as int))->Some_0;
                    assert forall|k: int| 0 <= k < ns.len() implies ns[k] != cand@ by {
                        assert(spec_view_seq(names@)[k] == names@[k]@);
                    }
                    assert(!ns.contains(cand@));
                }
                names.push(cand);
            }
            i += 1;
        }
        proof {
            assert(self.circles@.take(self.circles@.len() as int) =~= self.circles@);
        }
        Ok(names)
    }
}

/// Once the plan fails on a prefix, it fails on the whole.
proof fn lemma_sheet_plan_none(circles: Seq<CircleInfo>, i: int)
    requires
        0 <= i <= circles.len(),
        spec_sheet_plan(circles.take(i)) is None,
    ensures
        spec_sheet_plan(circles) is None,
    decreases circles.len() - i,
{
    if i < circles.len() {
        lemma_sheet_plan_step(circles, i);
        lemma_sheet_plan_none(circles, i + 1);
    } else {
        assert(circles.take(i) =~= circles);
    }
}

} // verus!
