//! Resolver tables: the lookup data a caller registers before rendering.
//!
//! A variable reference is resolved in a fixed priority: the meta table
//! first (simple substitutions that need no styling, such as a module's
//! symbol), then the value table.  Style variables are looked up in the
//! style table only.  Every lookup is a first-match search, so the tables
//! behave like the closures they stand for: one answer per name.

use vstd::prelude::*;

verus! {

/// What the value resolver reported for one variable.
#[derive(Debug, Clone, PartialEq, Eq)]
pub enum ResolvedValue {
    /// The variable resolved to this text.
    Text(String),
    /// The variable has no applicable value.
    Absent,
    /// Resolution itself failed; the message propagates as an evaluation
    /// error and aborts the whole render.
    Failure(String),
}

/// Ghost model of a resolved value.
pub enum ValueView {
    Text(Seq<char>),
    Absent,
    Failure(Seq<char>),
}

impl DeepView for ResolvedValue {
    type V = ValueView;

    open spec fn deep_view(&self) -> ValueView {
        match self {
            ResolvedValue::Text(s) => ValueView::Text(s@),
            ResolvedValue::Absent => ValueView::Absent,
            ResolvedValue::Failure(m) => ValueView::Failure(m@),
        }
    }
}

/// First-match lookup in an association list.
pub open spec fn assoc<V>(entries: Seq<(Seq<char>, V)>, name: Seq<char>) -> Option<V>
    decreases entries.len(),
{
    if entries.len() == 0 {
        Option::None
    } else if entries[0].0 == name {
        Option::Some(entries[0].1)
    } else {
        assoc(entries.drop_first(), name)
    }
}

/// The character-sequence views of a list of name/value pairs.
pub open spec fn pairs_view(entries: Seq<(String, String)>) -> Seq<(Seq<char>, Seq<char>)> {
    entries.map_values(|p: (String, String)| (p.0@, p.1@))
}

/// First-match lookup in a plain list of name/value pairs.
pub fn lookup_pairs(entries: &Vec<(String, String)>, name: &String) -> (r: Option<String>)
    ensures
        match r {
            Option::Some(v) => assoc(pairs_view(entries@), name@) == Option::Some(v@),
            Option::None => assoc(pairs_view(entries@), name@) is None,
        },
{
    let ghost pv = pairs_view(entries@);
    proof {
        assert(pv.skip(0) =~= pv);
    }
    let n = entries.len();
    let mut i: usize = 0;
    while i < n
        invariant
            n == entries@.len(),
            pv == pairs_view(entries@),
            pv.len() == n,
            i <= n,
            assoc(pv, name@) == assoc(pv.skip(i as int), name@),
        decreases n - i,
    {
        let p = &entries[i];
        proof {
            assert(pv.skip(i as int)[0] == pv[i as int]);
        }
        if p.0.eq(name) {
            return Option::Some(p.1.clone());
        }
        proof {
            assert(pv.skip(i as int).drop_first() =~= pv.skip(i as int + 1));
        }
        i = i + 1;
    }
    proof {
        assert(pv.skip(i as int).len() == 0);
    }
    Option::None
}

/// The three lookup tables: meta substitutions, style specifications and
/// variable values.
pub struct ResolverTable {
    pub meta: Vec<(String, String)>,
    pub styles: Vec<(String, Result<String, String>)>,
    pub values: Vec<(String, ResolvedValue)>,
}

/// Ghost model of the tables.
pub struct TableView {
    pub meta: Seq<(Seq<char>, Seq<char>)>,
    pub styles: Seq<(Seq<char>, Result<Seq<char>, Seq<char>>)>,
    pub values: Seq<(Seq<char>, ValueView)>,
}

impl View for ResolverTable {
    type V = TableView;

    open spec fn view(&self) -> TableView {
        TableView {
            meta: pairs_view(self.meta@),
            styles: self.styles@.map_values(
                |p: (String, Result<String, String>)|
                    (
                        p.0@,
                        match p.1 {
                            Ok(s) => Ok::<Seq<char>, Seq<char>>(s@),
                            Err(m) => Err::<Seq<char>, Seq<char>>(m@),
                        },
                    ),
            ),
            values: self.values@.map_values(|p: (String, ResolvedValue)| (p.0@, p.1.deep_view())),
        }
    }
}

impl ResolverTable {
    /// A table with no entries at all.
    pub fn new() -> (r: ResolverTable)
        ensures
            r@.meta == Seq::<(Seq<char>, Seq<char>)>::empty(),
            r@.styles == Seq::<(Seq<char>, Result<Seq<char>, Seq<char>>)>::empty(),
            r@.values == Seq::<(Seq<char>, ValueView)>::empty(),
    {
        let r = ResolverTable { meta: Vec::new(), styles: Vec::new(), values: Vec::new() };
        proof {
            assert(r@.meta =~= Seq::<(Seq<char>, Seq<char>)>::empty());
            assert(r@.styles =~= Seq::<(Seq<char>, Result<Seq<char>, Seq<char>>)>::empty());
            assert(r@.values =~= Seq::<(Seq<char>, ValueView)>::empty());
        }
        r
    }
}

/// Look a name up in the meta table.
pub fn lookup_meta(table: &ResolverTable, name: &String) -> (r: Option<String>)
    ensures
        match r {
            Option::Some(v) => assoc(table@.meta, name@) == Option::Some(v@),
            Option::None => assoc(table@.meta, name@) is None,
        },
{
    let n = table.meta.len();
    proof {
        assert(table@.meta.skip(0) =~= table@.meta);
    }
    let mut i: usize = 0;
    while i < n
        invariant
            n == table.meta@.len(),
            i <= n,
            assoc(table@.meta, name@) == assoc(table@.meta.skip(i as int), name@),
        decreases n - i,
    {
        let p = &table.meta[i];
        if p.0.eq(name) {
            proof {
                assert(table@.meta.skip(i as int)[0] == (p.0@, p.1@));
            }
            return Option::Some(p.1.clone());
        }
        proof {
            assert(table@.meta.skip(i as int)[0] == (p.0@, p.1@));
            assert(table@.meta.skip(i as int).drop_first() =~= table@.meta.skip(i as int + 1));
        }
        i = i + 1;
    }
    proof {
        assert(table@.meta.skip(i as int).len() == 0);
    }
    Option::None
}

/// Look a name up in the style table.
pub fn lookup_style(table: &ResolverTable, name: &String) -> (r: Option<Result<String, String>>)
    ensures
        match r {
            Option::Some(Ok(v)) => assoc(table@.styles, name@) == Option::Some(
                Ok::<Seq<char>, Seq<char>>(v@),
            ),
            Option::Some(Err(m)) => assoc(table@.styles, name@) == Option::Some(
                Err::<Seq<char>, Seq<char>>(m@),
            ),
            Option::None => assoc(table@.styles, name@) is None,
        },
{
    let n = table.styles.len();
    proof {
        assert(table@.styles.skip(0) =~= table@.styles);
    }
    let mut i: usize = 0;
    while i < n
        invariant
            n == table.styles@.len(),
            i <= n,
            assoc(table@.styles, name@) == assoc(table@.styles.skip(i as int), name@),
        decreases n - i,
    {
        let p = &table.styles[i];
        proof {
            assert(table@.styles.skip(i as int)[0] == table@.styles[i as int]);
        }
        if p.0.eq(name) {
            let out = match &p.1 {
                Ok(s) => Ok(s.clone()),
                Err(m) => Err(m.clone()),
            };
            return Option::Some(out);
        }
        proof {
            assert(table@.styles.skip(i as int).drop_first() =~= table@.styles.skip(i as int + 1));
        }
        i = i + 1;
    }
    proof {
        assert(table@.styles.skip(i as int).len() == 0);
    }
    Option::None
}

/// Look a name up in the value table.
pub fn lookup_value(table: &ResolverTable, name: &String) -> (r: Option<ResolvedValue>)
    ensures
        match r {
            Option::Some(v) => assoc(table@.values, name@) == Option::Some(v.deep_view()),
            Option::None => assoc(table@.values, name@) is None,
        },
{
    let n = table.values.len();
    proof {
        assert(table@.values.skip(0) =~= table@.values);
    }
    let mut i: usize = 0;
    while i < n
        invariant
            n == table.values@.len(),
            i <= n,
            assoc(table@.values, name@) == assoc(table@.values.skip(i as int), name@),
        decreases n - i,
    {
        let p = &table.values[i];
        proof {
            assert(table@.values.skip(i as int)[0] == table@.values[i as int]);
        }
        if p.0.eq(name) {
            let out = match &p.1 {
                ResolvedValue::Text(s) => ResolvedValue::Text(s.clone()),
                ResolvedValue::Absent => ResolvedValue::Absent,
                ResolvedValue::Failure(m) => ResolvedValue::Failure(m.clone()),
            };
            return Option::Some(out);
        }
        proof {
            assert(table@.values.skip(i as int).drop_first() =~= table@.values.skip(i as int + 1));
        }
        i = i + 1;
    }
    proof {
        assert(table@.values.skip(i as int).len() == 0);
    }
    Option::None
}

} // verus!
