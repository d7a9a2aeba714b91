//! The six languages onlinejudge.org offers, and what to call each of them.
//!
//! **The problem type defines these, not a problem's configuration.** The list
//! is a property of *the archive*, which every `uva@1` problem shares — holding
//! it per problem meant writing the same six numbers into every import, and an
//! import that wrote none produced a problem nobody could submit to.
//!
//! ## The labels are not `standard-io@1`'s
//!
//! Three ids are shared with it — `c89-gcc`, `cpp11-gcc`, `python3` — because
//! they mean the same language. **The labels differ, and must**: the compilers
//! here are the archive's, pinned at the archive's versions.

use vstd::prelude::*;

use crate::integration::{catalogue_view, first_with_id, ids_of, Language, LanguageView};
use crate::text::same;

verus! {

/// The six, in the order the archive's own form lists them.
///
/// **Only `5` has been watched work.** A real submission was accepted under it;
/// the other five are read off the archive's form.
pub open spec fn offered() -> Seq<LanguageView> {
    seq![
        LanguageView { id: "c89-gcc"@, label: "C89 / ANSI C (GCC 5.3.0)"@, number: 1 },
        LanguageView { id: "java8"@, label: "Java 8 (OpenJDK 1.8.0)"@, number: 2 },
        LanguageView { id: "cpp98-gcc"@, label: "C++98 (GCC 5.3.0)"@, number: 3 },
        LanguageView { id: "pascal-fpc"@, label: "Pascal (Free Pascal 3.0.0)"@, number: 4 },
        LanguageView { id: "cpp11-gcc"@, label: "C++11 (GCC 5.3.0)"@, number: 5 },
        LanguageView { id: "python3"@, label: "Python 3 (CPython 3.5.1)"@, number: 6 },
    ]
}

/// The six languages, in the archive's order.
pub fn catalogue() -> (c: Vec<Language>)
    ensures
        catalogue_view(c@) == offered(),
{
    let c = vec![
        Language { id: "c89-gcc", label: "C89 / ANSI C (GCC 5.3.0)", number: 1 },
        Language { id: "java8", label: "Java 8 (OpenJDK 1.8.0)", number: 2 },
        Language { id: "cpp98-gcc", label: "C++98 (GCC 5.3.0)", number: 3 },
        Language { id: "pascal-fpc", label: "Pascal (Free Pascal 3.0.0)", number: 4 },
        Language { id: "cpp11-gcc", label: "C++11 (GCC 5.3.0)", number: 5 },
        Language { id: "python3", label: "Python 3 (CPython 3.5.1)", number: 6 },
    ];
    assert(catalogue_view(c@) =~= offered());
    c
}

/// The catalogue entry for an id, if the archive offers it.
pub fn for_id(id: &str) -> (found: Option<Language>)
    ensures
        match found {
            Some(l) => exists|at: int| #[trigger]
                first_with_id(offered(), id@, at) && l@ == offered()[at],
            None => forall|at: int| !#[trigger] first_with_id(offered(), id@, at),
        },
{
    let all = catalogue();
    for i in 0..all.len()
        invariant
            catalogue_view(all@) == offered(),
            forall|j: int| 0 <= j < i ==> (#[trigger] offered()[j]).id != id@,
    {
        if same(all[i].id, id) {
            assert(offered()[i as int] == all@[i as int]@);
            assert(first_with_id(offered(), id@, i as int));
            return Some(all[i]);
        }
        assert(offered()[i as int] == all@[i as int]@);
    }
    None
}

/// Every id, for a refusal that says what is on offer.
pub fn ids() -> (v: Vec<&'static str>)
    ensures
        v@.map_values(|s: &'static str| s@) == ids_of(offered()),
{
    let all = catalogue();
    let mut v: Vec<&'static str> = Vec::new();
    for i in 0..all.len()
        invariant
            catalogue_view(all@) == offered(),
            v@.len() == i,
            v@.map_values(|s: &'static str| s@) == ids_of(offered()).take(i as int),
    {
        assert(offered()[i as int] == all@[i as int]@);
        v.push(all[i].id);
        assert(v@.map_values(|s: &'static str| s@) =~= ids_of(offered()).take(i + 1));
    }
    assert(ids_of(offered()).take(6) =~= ids_of(offered()));
    v
}

/// **No two languages post the same value, and no id is listed twice.** Two
/// Runners must not send the same submission to two different compilers.
pub proof fn lemma_catalogue_is_unambiguous()
    ensures
        forall|i: int, j: int|
            0 <= i < j < offered().len() ==> (#[trigger] offered()[i]).number != (
            #[trigger] offered()[j]).number && offered()[i].id != offered()[j].id,
{
    reveal_strlit("c89-gcc");
    reveal_strlit("java8");
    reveal_strlit("cpp98-gcc");
    reveal_strlit("pascal-fpc");
    reveal_strlit("cpp11-gcc");
    reveal_strlit("python3");
    assert forall|i: int, j: int|
        0 <= i < j < offered().len() implies (#[trigger] offered()[i]).number != (
        #[trigger] offered()[j]).number && offered()[i].id != offered()[j].id by {
        assert(offered()[i].id.len() != offered()[j].id.len() || offered()[i].id[0]
            != offered()[j].id[0] || offered()[i].id[3] != offered()[j].id[3]);
    }
}

} // verus!
