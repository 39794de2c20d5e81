//! The vocabulary of things ATC can grant. Only operational clearances are
//! real here; numeric restrictions ("Cross FIX above 4000") need
//! navigation that doesn't exist yet.
use vstd::prelude::*;
use crate::text::{eq_ignoring_ascii_case, eq_ignore_ascii_case};

verus! {

#[derive(Debug, Clone, Copy, PartialEq, Eq, Structural, Hash)]
pub enum ClearanceType {
    Pushback,
    Taxi,
    Takeoff,
    Descend,
    Approach,
    Landing,
}

/// Every clearance type, in the order ATC lists them.
pub open spec fn all_clearances() -> Seq<ClearanceType> {
    seq![
        ClearanceType::Pushback,
        ClearanceType::Taxi,
        ClearanceType::Takeoff,
        ClearanceType::Descend,
        ClearanceType::Approach,
        ClearanceType::Landing,
    ]
}

/// The radio name of a clearance type.
pub open spec fn clearance_name(c: ClearanceType) -> Seq<char> {
    match c {
        ClearanceType::Pushback => seq!['P', 'U', 'S', 'H', 'B', 'A', 'C', 'K'],
        ClearanceType::Taxi => seq!['T', 'A', 'X', 'I'],
        ClearanceType::Takeoff => seq!['T', 'A', 'K', 'E', 'O', 'F', 'F'],
        ClearanceType::Descend => seq!['D', 'E', 'S', 'C', 'E', 'N', 'D'],
        ClearanceType::Approach => seq!['A', 'P', 'P', 'R', 'O', 'A', 'C', 'H'],
        ClearanceType::Landing => seq!['L', 'A', 'N', 'D', 'I', 'N', 'G'],
    }
}

/// The first clearance type, in `all_clearances()` order, whose name
/// matches `name` ignoring ASCII case.
pub open spec fn find_clearance(name: Seq<char>, from: int) -> Option<ClearanceType>
    decreases 6 - from,
{
    if from < 0 || from >= 6 {
        None
    } else if eq_ignoring_ascii_case(clearance_name(all_clearances()[from]), name) {
        Some(all_clearances()[from])
    } else {
        find_clearance(name, from + 1)
    }
}

impl ClearanceType {
    /// Every clearance type, in the order ATC lists them.
    pub fn all() -> (r: [ClearanceType; 6])
        ensures
            r@ == all_clearances(),
    {
        let r = [
            ClearanceType::Pushback,
            ClearanceType::Taxi,
            ClearanceType::Takeoff,
            ClearanceType::Descend,
            ClearanceType::Approach,
            ClearanceType::Landing,
        ];
        assert(r@ =~= all_clearances());
        r
    }

    pub fn name(&self) -> (r: &'static str)
        ensures
            r@ == clearance_name(*self),
    {
        match self {
            ClearanceType::Pushback => {
                proof {
                    reveal_strlit("PUSHBACK");
                }
                "PUSHBACK"
            },
            ClearanceType::Taxi => {
                proof {
                    reveal_strlit("TAXI");
                }
                "TAXI"
            },
            ClearanceType::Takeoff => {
                proof {
                    reveal_strlit("TAKEOFF");
                }
                "TAKEOFF"
            },
            ClearanceType::Descend => {
                proof {
                    reveal_strlit("DESCEND");
                }
                "DESCEND"
            },
            ClearanceType::Approach => {
                proof {
                    reveal_strlit("APPROACH");
                }
                "APPROACH"
            },
            ClearanceType::Landing => {
                proof {
                    reveal_strlit("LANDING");
                }
                "LANDING"
            },
        }
    }

    /// The clearance type named `name`, ignoring ASCII case.
    pub fn lookup(name: &str) -> (r: Option<ClearanceType>)
        ensures
            r == find_clearance(name@, 0),
    {
        let all = ClearanceType::all();
        let mut i: usize = 0;
        while i < 6
            invariant
                i <= 6,
                all@ == all_clearances(),
                find_clearance(name@, 0) == find_clearance(name@, i as int),
            decreases 6 - i,
        {
            if eq_ignore_ascii_case(all[i].name(), name) {
                return Some(all[i]);
            }
            i = i + 1;
        }
        None
    }
}

/// Distinct clearance types have names that differ even ignoring case.
pub proof fn law_names_distinct(a: ClearanceType, b: ClearanceType)
    requires
        a != b,
    ensures
        !eq_ignoring_ascii_case(clearance_name(a), clearance_name(b)),
{
    let na = clearance_name(a);
    let nb = clearance_name(b);
    if na.len() == nb.len() {
        // Same-length names differ in their first or second letter.
        if na[0] == nb[0] {
            assert(crate::text::ascii_lower(na[1]) != crate::text::ascii_lower(nb[1]));
        } else {
            assert(crate::text::ascii_lower(na[0]) != crate::text::ascii_lower(nb[0]));
        }
    }
}

/// Every clearance type is found again by its own name.
pub proof fn law_name_round_trip(c: ClearanceType)
    ensures
        find_clearance(clearance_name(c), 0) == Some(c),
{
    let n = clearance_name(c);
    assert(eq_ignoring_ascii_case(n, n));
    let all = all_clearances();
    assert forall|i: int| 0 <= i < 6 && all[i] != c implies !eq_ignoring_ascii_case(
        clearance_name(#[trigger] all[i]),
        n,
    ) by {
        law_names_distinct(all[i], c);
    }
    reveal_with_fuel(find_clearance, 7);
}

/// Matching ignoring ASCII case is symmetric and transitive.
proof fn lemma_case_match(a: Seq<char>, b: Seq<char>, c: Seq<char>)
    ensures
        eq_ignoring_ascii_case(a, b) ==> eq_ignoring_ascii_case(b, a),
        eq_ignoring_ascii_case(a, b) && eq_ignoring_ascii_case(b, c) ==> eq_ignoring_ascii_case(
            a,
            c,
        ),
{
    if eq_ignoring_ascii_case(a, b) {
        assert forall|i: int| 0 <= i < b.len() implies #[trigger] crate::text::ascii_lower(b[i])
            == crate::text::ascii_lower(a[i]) by {
            assert(crate::text::ascii_lower(a[i]) == crate::text::ascii_lower(b[i]));
        }
        if eq_ignoring_ascii_case(b, c) {
            assert forall|i: int| 0 <= i < a.len() implies #[trigger] crate::text::ascii_lower(a[i])
                == crate::text::ascii_lower(c[i]) by {
                assert(crate::text::ascii_lower(a[i]) == crate::text::ascii_lower(b[i]));
                assert(crate::text::ascii_lower(b[i]) == crate::text::ascii_lower(c[i]));
            }
        }
    }
}

/// Looking up `name` finds a clearance exactly when that clearance's name
/// equals `name` ignoring ASCII case, and finds nothing when no name does.
pub proof fn law_lookup_finds_the_matching_name(name: Seq<char>)
    ensures
        forall|c: ClearanceType|
            #[trigger] find_clearance(name, 0) == Some(c) <==> eq_ignoring_ascii_case(
                clearance_name(c),
                name,
            ),
        find_clearance(name, 0) is None <==> forall|c: ClearanceType|
            !eq_ignoring_ascii_case(#[trigger] clearance_name(c), name),
{
    let all = all_clearances();
    reveal_with_fuel(find_clearance, 7);
    assert forall|c: ClearanceType| #[trigger]
        find_clearance(name, 0) == Some(c) <==> eq_ignoring_ascii_case(clearance_name(c), name) by {
        assert(all.contains(c)) by {
            match c {
                ClearanceType::Pushback => assert(all[0] == c),
                ClearanceType::Taxi => assert(all[1] == c),
                ClearanceType::Takeoff => assert(all[2] == c),
                ClearanceType::Descend => assert(all[3] == c),
                ClearanceType::Approach => assert(all[4] == c),
                ClearanceType::Landing => assert(all[5] == c),
            }
        }
        assert forall|d: ClearanceType|
            d != c && eq_ignoring_ascii_case(clearance_name(c), name) implies !eq_ignoring_ascii_case(
            #[trigger] clearance_name(d),
            name,
        ) by {
            law_names_distinct(c, d);
            lemma_case_match(clearance_name(d), name, clearance_name(c));
            lemma_case_match(clearance_name(c), name, clearance_name(d));
            lemma_case_match(name, clearance_name(c), clearance_name(d));
        }
    }
    if find_clearance(name, 0) is None {
        assert forall|c: ClearanceType| !eq_ignoring_ascii_case(#[trigger] clearance_name(c), name) by {
            if eq_ignoring_ascii_case(clearance_name(c), name) {
                assert(find_clearance(name, 0) == Some(c));
            }
        }
    } else {
        let c = find_clearance(name, 0).unwrap();
        assert(find_clearance(name, 0) == Some(c));
        assert(eq_ignoring_ascii_case(clearance_name(c), name));
    }
}

/// Looking a clearance up does not depend on letter case.
pub proof fn law_lookup_ignores_case(a: Seq<char>, b: Seq<char>, from: int)
    requires
        eq_ignoring_ascii_case(a, b),
    ensures
        find_clearance(a, from) == find_clearance(b, from),
    decreases 6 - from,
{
    if 0 <= from < 6 {
        let n = clearance_name(all_clearances()[from]);
        assert(eq_ignoring_ascii_case(n, a) == eq_ignoring_ascii_case(n, b));
        law_lookup_ignores_case(a, b, from + 1);
    }
}

} // verus!
