//! The order of application records: by name, then by command, then by icon,
//! each text by its characters from the left.
use vstd::prelude::*;
use crate::app::{views, App, AppView, Identity};
use crate::db::describes;
use crate::ranking::lemma_views_insert;
use crate::text::{chars_of, texts};

verus! {

/// Where one value stands with respect to another.
#[derive(Clone, Copy, Debug, PartialEq, Eq, Structural)]
pub enum Side {
    Before,
    Same,
    After,
}

/// Whether `a` stands before `b` where lists are ordered from the left: at
/// the first place where they differ `a` has the smaller item, or `a` ends
/// there and `b` goes on.
pub open spec fn lex_lt<T>(a: Seq<T>, b: Seq<T>, lt: spec_fn(T, T) -> bool) -> bool
    decreases a.len(),
{
    if b.len() == 0 {
        false
    } else if a.len() == 0 {
        true
    } else if a[0] == b[0] {
        lex_lt(a.skip(1), b.skip(1), lt)
    } else {
        lt(a[0], b[0])
    }
}

/// Whether `lt` orders all values of a type in a row: nothing stands before
/// itself, what stands before something stands before all that follows it,
/// and of two different values one stands before the other.
pub open spec fn strict_total<T>(lt: spec_fn(T, T) -> bool) -> bool {
    &&& forall|x: T| !#[trigger] lt(x, x)
    &&& forall|x: T, y: T, z: T| #[trigger] lt(x, y) && #[trigger] lt(y, z) ==> lt(x, z)
    &&& forall|x: T, y: T| x != y ==> #[trigger] lt(x, y) || lt(y, x)
}

/// No list stands before itself.
pub proof fn lemma_lex_irreflexive<T>(a: Seq<T>, lt: spec_fn(T, T) -> bool)
    requires
        strict_total(lt),
    ensures
        !lex_lt(a, a, lt),
    decreases a.len(),
{
    if a.len() > 0 {
        lemma_lex_irreflexive(a.skip(1), lt);
    }
}

/// A list that stands before another stands before all that follow that one.
pub proof fn lemma_lex_transitive<T>(a: Seq<T>, b: Seq<T>, c: Seq<T>, lt: spec_fn(T, T) -> bool)
    requires
        strict_total(lt),
        lex_lt(a, b, lt),
        lex_lt(b, c, lt),
    ensures
        lex_lt(a, c, lt),
    decreases a.len(),
{
    if a.len() > 0 {
        if a[0] == b[0] && b[0] == c[0] {
            lemma_lex_transitive(a.skip(1), b.skip(1), c.skip(1), lt);
        } else if a[0] == b[0] {
            assert(lt(b[0], c[0]));
        } else if b[0] == c[0] {
            assert(lt(a[0], b[0]));
        } else {
            assert(lt(a[0], b[0]) && lt(b[0], c[0]));
            assert(lt(a[0], c[0]));
            assert(!lt(a[0], a[0]));
        }
    }
}

/// Of two different lists one stands before the other.
pub proof fn lemma_lex_total<T>(a: Seq<T>, b: Seq<T>, lt: spec_fn(T, T) -> bool)
    requires
        strict_total(lt),
    ensures
        a == b || lex_lt(a, b, lt) || lex_lt(b, a, lt),
    decreases a.len(),
{
    if a.len() == 0 || b.len() == 0 {
        if a.len() == 0 && b.len() == 0 {
            assert(a =~= b);
        }
    } else if a[0] == b[0] {
        lemma_lex_total(a.skip(1), b.skip(1), lt);
        if a.skip(1) == b.skip(1) {
            assert(a =~= seq![a[0]] + a.skip(1));
            assert(b =~= seq![b[0]] + b.skip(1));
        }
    } else {
        assert(lt(a[0], b[0]) || lt(b[0], a[0]));
    }
}

/// Where the items are ordered in a row, the lists of them are too.
pub proof fn lemma_lex_strict_total<T>(lt: spec_fn(T, T) -> bool)
    requires
        strict_total(lt),
    ensures
        strict_total(|a: Seq<T>, b: Seq<T>| lex_lt(a, b, lt)),
{
    let order = |a: Seq<T>, b: Seq<T>| lex_lt(a, b, lt);
    assert forall|x: Seq<T>| !#[trigger] order(x, x) by {
        lemma_lex_irreflexive(x, lt);
    }
    assert forall|x: Seq<T>, y: Seq<T>, z: Seq<T>| #[trigger]
        order(x, y) && #[trigger] order(y, z) implies order(x, z) by {
        lemma_lex_transitive(x, y, z, lt);
    }
    assert forall|x: Seq<T>, y: Seq<T>| x != y implies #[trigger] order(x, y) || order(y, x) by {
        lemma_lex_total(x, y, lt);
    }
}

/// The order of characters: by their code points.
pub open spec fn char_order() -> spec_fn(char, char) -> bool {
    |a: char, b: char| (a as u32) < (b as u32)
}

/// Whether the text `a` stands before the text `b`.
pub open spec fn text_lt(a: Seq<char>, b: Seq<char>) -> bool {
    lex_lt(a, b, char_order())
}

/// The order of texts.
pub open spec fn text_order() -> spec_fn(Seq<char>, Seq<char>) -> bool {
    |a: Seq<char>, b: Seq<char>| lex_lt(a, b, char_order())
}

/// Whether the list of texts `a` stands before the list `b`.
pub open spec fn list_lt(a: Seq<Seq<char>>, b: Seq<Seq<char>>) -> bool {
    lex_lt(a, b, text_order())
}

/// The order of lists of texts.
pub open spec fn list_order() -> spec_fn(Seq<Seq<char>>, Seq<Seq<char>>) -> bool {
    |a: Seq<Seq<char>>, b: Seq<Seq<char>>| lex_lt(a, b, text_order())
}

/// Whether the application `a` stands before the application `b`: by name,
/// then by command, then by icon.
pub open spec fn identity_lt(a: Identity, b: Identity) -> bool {
    if a.name != b.name {
        text_lt(a.name, b.name)
    } else if a.command != b.command {
        list_lt(a.command, b.command)
    } else {
        text_lt(a.icon, b.icon)
    }
}

/// The characters are ordered in a row, and so are the texts.
pub proof fn lemma_text_order()
    ensures
        strict_total(char_order()),
        strict_total(text_order()),
{
    let order = char_order();
    assert forall|x: char| !#[trigger] order(x, x) by {}
    assert forall|x: char, y: char, z: char| #[trigger]
        order(x, y) && #[trigger] order(y, z) implies order(x, z) by {}
    assert forall|x: char, y: char| x != y implies #[trigger] order(x, y) || order(y, x) by {
        vstd::utf8::char_u32_cast(x, x as u32);
        vstd::utf8::char_u32_cast(y, y as u32);
    }
    lemma_lex_strict_total(char_order());
}

/// No application stands before itself.
pub proof fn lemma_identity_irreflexive(a: Identity)
    ensures
        !identity_lt(a, a),
{
    lemma_text_order();
    lemma_lex_irreflexive(a.icon, char_order());
}

/// An application that stands before another stands before all that follow
/// that one.
pub proof fn lemma_identity_transitive(a: Identity, b: Identity, c: Identity)
    requires
        identity_lt(a, b),
        identity_lt(b, c),
    ensures
        identity_lt(a, c),
{
    lemma_text_order();
    if a.name != b.name && b.name != c.name {
        lemma_lex_transitive(a.name, b.name, c.name, char_order());
        lemma_lex_irreflexive(a.name, char_order());
    } else if a.name != b.name || b.name != c.name {
    } else if a.command != b.command && b.command != c.command {
        lemma_lex_transitive(a.command, b.command, c.command, text_order());
        lemma_lex_irreflexive(a.command, text_order());
    } else if a.command != b.command || b.command != c.command {
    } else {
        lemma_lex_transitive(a.icon, b.icon, c.icon, char_order());
    }
}

/// Of two different applications one stands before the other.
pub proof fn lemma_identity_total(a: Identity, b: Identity)
    ensures
        a == b || identity_lt(a, b) || identity_lt(b, a),
{
    lemma_text_order();
    lemma_lex_total(a.name, b.name, char_order());
    lemma_lex_total(a.command, b.command, text_order());
    lemma_lex_total(a.icon, b.icon, char_order());
}

/// Where `a` stands with respect to `b` under the order `lt`.
pub open spec fn side_of<T>(a: T, b: T, lt: spec_fn(T, T) -> bool) -> Side {
    if a == b {
        Side::Same
    } else if lt(a, b) {
        Side::Before
    } else {
        Side::After
    }
}

/// Where the application `a` stands with respect to `b`.
pub open spec fn identity_side(a: Identity, b: Identity) -> Side {
    if a == b {
        Side::Same
    } else if identity_lt(a, b) {
        Side::Before
    } else {
        Side::After
    }
}

/// Tells where one text stands with respect to another.
pub fn compare_text(a: &str, b: &str) -> (r: Side)
    ensures
        r == side_of(a@, b@, text_order()),
{
    let x = chars_of(a);
    let y = chars_of(b);
    let mut i: usize = 0;
    proof {
        assert(x@.skip(0) =~= x@);
        assert(y@.skip(0) =~= y@);
    }
    while i < x.len() && i < y.len()
        invariant
            x@ == a@,
            y@ == b@,
            i <= x.len(),
            i <= y.len(),
            forall|k: int| 0 <= k < i ==> x@[k] == y@[k],
            text_lt(x@, y@) == text_lt(x@.skip(i as int), y@.skip(i as int)),
        decreases x.len() - i,
    {
        let c = x[i];
        let d = y[i];
        proof {
            assert(x@.skip(i as int)[0] == c);
            assert(y@.skip(i as int)[0] == d);
            assert(x@.skip(i as int).skip(1) =~= x@.skip(i + 1));
            assert(y@.skip(i as int).skip(1) =~= y@.skip(i + 1));
        }
        if c != d {
            return if (c as u32) < (d as u32) {
                Side::Before
            } else {
                Side::After
            };
        }
        i += 1;
    }
    if i < y.len() {
        assert(x@.skip(i as int).len() == 0);
        Side::Before
    } else if i < x.len() {
        assert(y@.skip(i as int).len() == 0);
        Side::After
    } else {
        assert(x@ =~= y@);
        Side::Same
    }
}

/// Tells where one list of texts stands with respect to another.
pub fn compare_lists(a: &Vec<String>, b: &Vec<String>) -> (r: Side)
    ensures
        r == side_of(texts(a@), texts(b@), list_order()),
{
    let ghost x = texts(a@);
    let ghost y = texts(b@);
    let mut i: usize = 0;
    proof {
        assert(x.skip(0) =~= x);
        assert(y.skip(0) =~= y);
    }
    while i < a.len() && i < b.len()
        invariant
            x == texts(a@),
            y == texts(b@),
            i <= a.len(),
            i <= b.len(),
            forall|k: int| 0 <= k < i ==> x[k] == y[k],
            list_lt(x, y) == list_lt(x.skip(i as int), y.skip(i as int)),
        decreases a.len() - i,
    {
        let side = compare_text(a[i].as_str(), b[i].as_str());
        proof {
            assert(x.skip(i as int)[0] == a@[i as int]@);
            assert(y.skip(i as int)[0] == b@[i as int]@);
            assert(x.skip(i as int).skip(1) =~= x.skip(i + 1));
            assert(y.skip(i as int).skip(1) =~= y.skip(i + 1));
        }
        match side {
            Side::Same => {},
            _ => {
                return side;
            },
        }
        i += 1;
    }
    if i < b.len() {
        assert(x.skip(i as int).len() == 0);
        Side::Before
    } else if i < a.len() {
        assert(y.skip(i as int).len() == 0);
        Side::After
    } else {
        assert(x =~= y);
        Side::Same
    }
}

impl App {
    /// Tells where this record stands with respect to the other in the order
    /// of applications: by name, then by command, then by icon.
    pub fn compare(&self, other: &App) -> (r: Side)
        ensures
            r == identity_side(self@.identity(), other@.identity()),
    {
        match compare_text(self.name.as_str(), other.name.as_str()) {
            Side::Same => {},
            side => {
                return side;
            },
        }
        match compare_lists(&self.command, &other.command) {
            Side::Same => {},
            side => {
                return side;
            },
        }
        compare_text(self.icon.as_str(), other.icon.as_str())
    }
}

/// Whether each record of a list stands before all that follow it. No two
/// records of such a list describe the same application.
pub open spec fn strictly_ascending(apps: Seq<AppView>) -> bool {
    forall|i: int, j: int|
        0 <= i < j < apps.len() ==> identity_lt(
            (#[trigger] apps[i]).identity(),
            (#[trigger] apps[j]).identity(),
        )
}

/// Whether `out` is `input` put in order, with one record for each
/// application: `out` is strictly ascending, each of its records is one of
/// `input`, and it describes every application that `input` describes.
pub open spec fn is_ordered_set_of(out: Seq<AppView>, input: Seq<AppView>) -> bool {
    &&& strictly_ascending(out)
    &&& forall|i: int| 0 <= i < out.len() ==> input.contains(#[trigger] out[i])
    &&& forall|k: int| 0 <= k < input.len() ==> describes(out, (#[trigger] input[k]).identity())
}

/// The place of a record in an ordered list: the records before that place
/// stand before it. Also tells whether the record at that place describes the
/// same application; where it does not, it stands after the record.
fn place_of(out: &Vec<App>, app: &App) -> (r: (usize, bool))
    ensures
        r.0 <= out@.len(),
        forall|k: int|
            0 <= k < r.0 ==> identity_lt(
                (#[trigger] views(out@)[k]).identity(),
                app@.identity(),
            ),
        r.1 ==> r.0 < out@.len() && views(out@)[r.0 as int].identity() == app@.identity(),
        !r.1 && r.0 < out@.len() ==> identity_lt(
            app@.identity(),
            views(out@)[r.0 as int].identity(),
        ),
{
    let mut j: usize = 0;
    while j < out.len()
        invariant
            j <= out.len(),
            forall|k: int|
                0 <= k < j ==> identity_lt(
                    (#[trigger] views(out@)[k]).identity(),
                    app@.identity(),
                ),
        decreases out.len() - j,
    {
        match out[j].compare(app) {
            Side::Before => {},
            Side::Same => {
                return (j, true);
            },
            Side::After => {
                proof {
                    lemma_identity_total(views(out@)[j as int].identity(), app@.identity());
                }
                return (j, false);
            },
        }
        j += 1;
    }
    (j, false)
}

/// Puts a record into an ordered list at its place, unless a record of the
/// list describes the same application.
fn insert_unique(out: &mut Vec<App>, app: App)
    requires
        strictly_ascending(views(old(out)@)),
    ensures
        strictly_ascending(views(final(out)@)),
        describes(views(final(out)@), app@.identity()),
        forall|i: int|
            0 <= i < old(out)@.len() ==> describes(
                views(final(out)@),
                (#[trigger] views(old(out)@)[i]).identity(),
            ),
        forall|i: int|
            0 <= i < final(out)@.len() ==> (#[trigger] views(final(out)@)[i]) == app@ || views(
                old(out)@,
            ).contains(views(final(out)@)[i]),
{
    let ghost before = views(out@);
    let (j, same) = place_of(out, &app);
    if same {
        proof {
            assert(before[j as int].identity() == app@.identity());
            assert forall|i: int| 0 <= i < before.len() implies describes(
                before,
                (#[trigger] before[i]).identity(),
            ) by {
                assert(before[i].identity() == before[i].identity());
            }
            assert forall|i: int| 0 <= i < before.len() implies before.contains(
                #[trigger] before[i],
            ) by {}
        }
        return ;
    }
    proof {
        lemma_views_insert(out@, j as int, app);
        let after = before.insert(j as int, app@);
        assert(after[j as int] == app@);
        assert(after[j as int].identity() == app@.identity());
        assert forall|a: int, b: int| 0 <= a < b < after.len() implies identity_lt(
            (#[trigger] after[a]).identity(),
            (#[trigger] after[b]).identity(),
        ) by {
            if b < j {
                assert(after[a] == before[a] && after[b] == before[b]);
            } else if b == j {
                assert(after[a] == before[a]);
            } else if a < j {
                assert(after[a] == before[a] && after[b] == before[b - 1]);
            } else if a == j {
                assert(after[b] == before[b - 1]);
                if j < b - 1 {
                    assert(identity_lt(before[j as int].identity(), before[b - 1].identity()));
                    lemma_identity_transitive(
                        app@.identity(),
                        before[j as int].identity(),
                        before[b - 1].identity(),
                    );
                }
            } else {
                assert(after[a] == before[a - 1] && after[b] == before[b - 1]);
            }
        }
        assert forall|i: int| 0 <= i < before.len() implies describes(
            after,
            (#[trigger] before[i]).identity(),
        ) by {
            if i < j {
                assert(after[i].identity() == before[i].identity());
            } else {
                assert(after[i + 1].identity() == before[i].identity());
            }
        }
        assert forall|i: int| 0 <= i < after.len() implies (#[trigger] after[i]) == app@
            || before.contains(after[i]) by {
            if i < j {
                assert(after[i] == before[i]);
            } else if i > j {
                assert(after[i] == before[i - 1]);
            }
        }
    }
    out.insert(j, app);
}

/// Puts records in the order of applications and keeps one record for each
/// application.
pub fn sort_dedup(apps: Vec<App>) -> (out: Vec<App>)
    ensures
        is_ordered_set_of(views(out@), views(apps@)),
{
    let mut out: Vec<App> = Vec::new();
    let ghost all = apps@;
    for app in it: apps
        invariant
            it.seq() == all,
            strictly_ascending(views(out@)),
            forall|i: int|
                0 <= i < out@.len() ==> views(all).contains(#[trigger] views(out@)[i]),
            forall|k: int|
                0 <= k < it.index() ==> describes(
                    views(out@),
                    (#[trigger] views(all)[k]).identity(),
                ),
    {
        let ghost before = views(out@);
        let ghost n = it.index() as int;
        assert(views(all)[n] == app@);
        insert_unique(&mut out, app);
        proof {
            let after = views(out@);
            assert forall|k: int| 0 <= k < n + 1 implies describes(
                after,
                (#[trigger] views(all)[k]).identity(),
            ) by {
                if k < n {
                    let id = views(all)[k].identity();
                    assert(describes(before, id));
                    let i = choose|i: int| 0 <= i < before.len() && #[trigger] before[i].identity()
                        == id;
                    assert(describes(after, before[i].identity()));
                }
            }
            assert forall|i: int| 0 <= i < after.len() implies views(all).contains(
                #[trigger] after[i],
            ) by {
                if after[i] != app@ {
                    assert(before.contains(after[i]));
                    let p = choose|p: int| 0 <= p < before.len() && before[p] == after[i];
                    assert(views(all).contains(before[p]));
                }
            }
        }
    }
    out
}

} // verus!
