//! The textual argument values the command line accepts, each read
//! case-insensitively into its typed form.

use vstd::prelude::*;

use crate::engine::{Dimension, MetricKind, Sort};
use crate::repo::model::{Gender, Metric};

verus! {

/// An argument value that names none of the accepted words.
#[derive(Debug, Clone, Copy, PartialEq, Eq, Structural)]
pub struct ArgError;

/// The character with upper-case ASCII letters lowered.
pub open spec fn spec_lower_char(c: char) -> char {
    if 'A' <= c && c <= 'Z' {
        ((c as u32) + 32) as char
    } else {
        c
    }
}

/// The text with upper-case ASCII letters lowered.
pub open spec fn spec_lower(s: Seq<char>) -> Seq<char> {
    s.map_values(|c: char| spec_lower_char(c))
}

/// Whether the text, lowered, reads exactly as the given word.
fn lower_eq(s: &str, word: &str) -> (r: bool)
    ensures
        r == (spec_lower(s@) == word@),
{
    let n = s.unicode_len();
    if n != word.unicode_len() {
        proof {
            assert(spec_lower(s@).len() == s@.len());
        }
        return false;
    }
    let mut i: usize = 0;
    while i < n
        invariant
            i <= n,
            n == s@.len(),
            n == word@.len(),
            forall|j: int| 0 <= j < i ==> spec_lower_char(#[trigger] s@[j]) == word@[j],
        decreases n - i,
    {
        let c = s.get_char(i);
        let w = word.get_char(i);
        let cu = c as u32;
        let wu = w as u32;
        let lowered: u32 = if 65 <= cu && cu <= 90 {
            cu + 32
        } else {
            cu
        };
        if lowered != wu {
            proof {
                assert(spec_lower(s@)[i as int] == spec_lower_char(s@[i as int]));
                assert(spec_lower_char(c) as u32 == lowered);
            }
            return false;
        }
        proof {
            assert(spec_lower_char(c) as u32 == lowered);
            assert(spec_lower_char(s@[i as int]) == w);
        }
        i = i + 1;
    }
    proof {
        assert(spec_lower(s@) =~= word@);
    }
    true
}

/// The sport an analysis runs over.
#[derive(Debug, Clone, Copy, PartialEq, Eq, Structural)]
pub enum SportArg {
    Football,
}

impl Default for SportArg {
    fn default() -> (r: Self)
        ensures
            r == SportArg::Football,
    {
        SportArg::Football
    }
}

impl SportArg {
    /// Reads the sport name, case-insensitively.
    pub fn from_str(s: &str) -> (r: Result<SportArg, ArgError>)
        ensures
            spec_lower(s@) == "football"@ ==> r == Ok::<SportArg, ArgError>(SportArg::Football),
            spec_lower(s@) != "football"@ ==> r == Err::<SportArg, ArgError>(ArgError),
    {
        if lower_eq(s, "football") {
            Ok(SportArg::Football)
        } else {
            Err(ArgError)
        }
    }
}

/// The dimension argument: which entity type to rank.
#[derive(Debug, Clone, Copy, PartialEq, Eq, Structural)]
pub struct DimensionArg {
    pub value: Dimension,
}

impl Default for DimensionArg {
    fn default() -> (r: Self)
        ensures
            r == (DimensionArg { value: Dimension::Player }),
    {
        DimensionArg { value: Dimension::Player }
    }
}

impl DimensionArg {
    /// Reads a dimension name, case-insensitively.
    pub fn from_str(s: &str) -> (r: Result<DimensionArg, ArgError>)
        ensures
            spec_lower(s@) == "player"@ ==> r == Ok::<DimensionArg, ArgError>(
                DimensionArg { value: Dimension::Player },
            ),
            spec_lower(s@) == "team"@ ==> r == Ok::<DimensionArg, ArgError>(
                DimensionArg { value: Dimension::Team },
            ),
            spec_lower(s@) != "player"@ && spec_lower(s@) != "team"@ ==> r == Err::<
                DimensionArg,
                ArgError,
            >(ArgError),
    {
        proof {
            broadcast use vstd::string::group_string_axioms;

            reveal_strlit("player");
            reveal_strlit("team");
            assert("player"@.len() == 6);
            assert("team"@.len() == 4);
        }
        if lower_eq(s, "player") {
            Ok(DimensionArg { value: Dimension::Player })
        } else if lower_eq(s, "team") {
            Ok(DimensionArg { value: Dimension::Team })
        } else {
            Err(ArgError)
        }
    }
}

/// The metric argument: which statistic to rank by.
#[derive(Debug, Clone, Copy, PartialEq, Eq, Structural)]
pub struct MetricArg {
    pub value: Metric,
}

impl Default for MetricArg {
    fn default() -> (r: Self)
        ensures
            r == (MetricArg { value: Metric::GoalsScored { value: 0u32 } }),
    {
        MetricArg { value: Metric::GoalsScored { value: 0 } }
    }
}

impl MetricArg {
    /// Reads a metric name, case-insensitively: `score` ranks by goals
    /// scored and `assist` by assists.
    pub fn from_str(s: &str) -> (r: Result<MetricArg, ArgError>)
        ensures
            spec_lower(s@) == "score"@ ==> r == Ok::<MetricArg, ArgError>(
                MetricArg { value: Metric::GoalsScored { value: 0u32 } },
            ),
            spec_lower(s@) == "assist"@ ==> r == Ok::<MetricArg, ArgError>(
                MetricArg { value: Metric::Assists { value: 0u32 } },
            ),
            spec_lower(s@) != "score"@ && spec_lower(s@) != "assist"@ ==> r == Err::<
                MetricArg,
                ArgError,
            >(ArgError),
    {
        proof {
            broadcast use vstd::string::group_string_axioms;

            reveal_strlit("score");
            reveal_strlit("assist");
            assert("score"@.len() == 5);
            assert("assist"@.len() == 6);
        }
        if lower_eq(s, "score") {
            Ok(MetricArg { value: Metric::GoalsScored { value: 0 } })
        } else if lower_eq(s, "assist") {
            Ok(MetricArg { value: Metric::Assists { value: 0 } })
        } else {
            Err(ArgError)
        }
    }

    /// The metric kind the argument selects.
    pub fn kind(&self) -> (r: MetricKind)
        ensures
            self.value is GoalsScored ==> r == MetricKind::GoalsScored,
            self.value is Assists ==> r == MetricKind::Assists,
    {
        match self.value {
            Metric::GoalsScored { .. } => MetricKind::GoalsScored,
            Metric::Assists { .. } => MetricKind::Assists,
        }
    }
}

/// The gender argument.
#[derive(Debug, Clone, Copy, PartialEq, Eq, Structural)]
pub struct GenderArg {
    pub value: Gender,
}

impl Default for GenderArg {
    fn default() -> (r: Self)
        ensures
            r == (GenderArg { value: Gender::Male }),
    {
        GenderArg { value: Gender::Male }
    }
}

impl GenderArg {
    /// Reads a gender name, case-insensitively.
    pub fn from_str(s: &str) -> (r: Result<GenderArg, ArgError>)
        ensures
            spec_lower(s@) == "male"@ ==> r == Ok::<GenderArg, ArgError>(
                GenderArg { value: Gender::Male },
            ),
            spec_lower(s@) == "female"@ ==> r == Ok::<GenderArg, ArgError>(
                GenderArg { value: Gender::Female },
            ),
            spec_lower(s@) != "male"@ && spec_lower(s@) != "female"@ ==> r == Err::<
                GenderArg,
                ArgError,
            >(ArgError),
    {
        proof {
            broadcast use vstd::string::group_string_axioms;

            reveal_strlit("male");
            reveal_strlit("female");
            assert("male"@.len() == 4);
            assert("female"@.len() == 6);
        }
        if lower_eq(s, "male") {
            Ok(GenderArg { value: Gender::Male })
        } else if lower_eq(s, "female") {
            Ok(GenderArg { value: Gender::Female })
        } else {
            Err(ArgError)
        }
    }
}

/// The sort-direction argument.
#[derive(Debug, Clone, Copy, PartialEq, Eq, Structural)]
pub struct SortArg {
    pub value: Sort,
}

impl Default for SortArg {
    fn default() -> (r: Self)
        ensures
            r == (SortArg { value: Sort::Asc }),
    {
        SortArg { value: Sort::Asc }
    }
}

impl SortArg {
    /// Reads a sort direction, case-insensitively.
    pub fn from_str(s: &str) -> (r: Result<SortArg, ArgError>)
        ensures
            spec_lower(s@) == "asc"@ ==> r == Ok::<SortArg, ArgError>(SortArg { value: Sort::Asc }),
            spec_lower(s@) == "desc"@ ==> r == Ok::<SortArg, ArgError>(
                SortArg { value: Sort::Desc },
            ),
            spec_lower(s@) != "asc"@ && spec_lower(s@) != "desc"@ ==> r == Err::<
                SortArg,
                ArgError,
            >(ArgError),
    {
        proof {
            broadcast use vstd::string::group_string_axioms;

            reveal_strlit("asc");
            reveal_strlit("desc");
            assert("asc"@.len() == 3);
            assert("desc"@.len() == 4);
        }
        if lower_eq(s, "asc") {
            Ok(SortArg { value: Sort::Asc })
        } else if lower_eq(s, "desc") {
            Ok(SortArg { value: Sort::Desc })
        } else {
            Err(ArgError)
        }
    }
}

} // verus!
