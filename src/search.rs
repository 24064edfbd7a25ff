use crate::text::{decimal, decimal_string};
use vstd::prelude::*;

verus! {

/// The kind of entity a search looks for.
#[derive(Clone, Copy, Debug, PartialEq, Eq, Structural)]
pub enum Search {
    Group,
    Teacher,
    LectureRoom,
}

/// The name of a kind of entity, as the command line spells it.
pub open spec fn search_noun(kind: Search) -> Seq<char> {
    match kind {
        Search::Group => "group"@,
        Search::Teacher => "teacher"@,
        Search::LectureRoom => "lecture_room"@,
    }
}

impl Search {
    /// Every kind, in the order the command line lists them.
    pub fn value_variants() -> (r: Vec<Search>)
        ensures
            r@ == seq![Search::Group, Search::Teacher, Search::LectureRoom],
    {
        vec![Search::Group, Search::Teacher, Search::LectureRoom]
    }

    /// The name of the kind, as the command line spells it.
    pub fn value_name(&self) -> (r: &'static str)
        ensures
            r@ == search_noun(*self),
    {
        match self {
            Search::Group => "group",
            Search::Teacher => "teacher",
            Search::LectureRoom => "lecture_room",
        }
    }
}

/// One line for each name, each behind a tab.
pub open spec fn name_lines(names: Seq<String>) -> Seq<char>
    decreases names.len(),
{
    if names.len() == 0 {
        Seq::empty()
    } else {
        name_lines(names.drop_last()) + "\t"@ + names.last()@ + "\n"@
    }
}

/// The report of a search for `query` that found the entities called `names`.
pub open spec fn search_report_text(kind: Search, query: Seq<char>, names: Seq<String>) -> Seq<
    char,
> {
    let noun = search_noun(kind);
    if names.len() == 0 {
        "Didn't find any "@ + noun + "s matching '"@ + query + "'\n"@
    } else if names.len() == 1 {
        "Found 1 "@ + noun + " with name "@ + names[0]@ + "\n"@
    } else {
        "Found "@ + decimal(names.len()) + " "@ + noun + "s with names:\n"@ + name_lines(names)
    }
}

/// Writes the report of a search for `query` that found the entities called `names`:
/// that none matched, the one that matched, or how many matched and their names.
pub fn search_report(kind: Search, query: &str, names: &Vec<String>) -> (r: String)
    ensures
        r@ == search_report_text(kind, query@, names@),
{
    let noun = kind.value_name();
    let n = names.len();
    if n == 0 {
        let mut out = String::from_str("Didn't find any ");
        out.append(noun);
        out.append("s matching '");
        out.append(query);
        out.append("'\n");
        return out;
    }
    if n == 1 {
        let mut out = String::from_str("Found 1 ");
        out.append(noun);
        out.append(" with name ");
        out.append(names[0].as_str());
        out.append("\n");
        return out;
    }
    let mut out = String::from_str("Found ");
    let count = decimal_string(n as u64);
    out.append(count.as_str());
    out.append(" ");
    out.append(noun);
    out.append("s with names:\n");
    let ghost head = out@;
    let mut k: usize = 0;
    while k < n
        invariant
            k <= n,
            n == names@.len(),
            out@ == head + name_lines(names@.take(k as int)),
        decreases n - k,
    {
        assert(names@.take(k + 1).drop_last() =~= names@.take(k as int));
        assert(names@.take(k + 1).last() == names@[k as int]);
        out.append("\t");
        out.append(names[k].as_str());
        out.append("\n");
        assert(out@ =~= head + name_lines(names@.take(k + 1)));
        k = k + 1;
    }
    assert(names@.take(n as int) =~= names@);
    assert(out@ =~= search_report_text(kind, query@, names@));
    out
}

} // verus!
