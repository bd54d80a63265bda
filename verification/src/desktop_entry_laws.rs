//! What holds of every reading of a value of a desktop entry.
use vstd::prelude::*;
use crate::desktop_entry::{exec_args, exec_scan, flushed, unescaped, ExecScan};
use crate::runner::split_on;

verus! {

/// Whether a text holds the character.
pub open spec fn has_char(s: Seq<char>, c: char) -> bool {
    exists|i: int| 0 <= i < s.len() && s[i] == c
}

/// A text without a backslash has no escape sequence: it is read as it is.
pub proof fn lemma_unescape_plain(s: Seq<char>)
    requires
        !has_char(s, '\\'),
    ensures
        unescaped(s) == s,
    decreases s.len(),
{
    if s.len() > 0 {
        assert(s[0] != '\\');
        assert forall|i: int| 0 <= i < s.skip(1).len() implies s.skip(1)[i] != '\\' by {
            assert(s.skip(1)[i] == s[i + 1]);
        }
        lemma_unescape_plain(s.skip(1));
        assert(seq![s[0]] + s.skip(1) =~= s);
    } else {
        assert(s =~= Seq::<char>::empty());
    }
}

/// The pieces that are not empty.
pub open spec fn words(pieces: Seq<Seq<char>>) -> Seq<Seq<char>> {
    pieces.filter(|w: Seq<char>| w.len() > 0)
}

/// A text without the separator is one piece.
pub proof fn lemma_split_whole(s: Seq<char>, sep: char)
    requires
        !has_char(s, sep),
    ensures
        split_on(s, sep) == seq![s],
    decreases s.len(),
{
    if s.len() > 0 {
        assert(s[s.len() - 1] != sep);
        assert forall|i: int| 0 <= i < s.drop_last().len() implies s.drop_last()[i] != sep by {
            assert(s.drop_last()[i] == s[i]);
        }
        lemma_split_whole(s.drop_last(), sep);
        assert(s.drop_last().push(s.last()) =~= s);
        assert(seq![s.drop_last()].drop_last().push(s.drop_last().push(s.last())) =~= seq![s]);
    } else {
        assert(s =~= Seq::<char>::empty());
    }
}

/// The pieces of a text that goes on after a separator: those of what
/// stands before it, followed by those of what stands after it.
pub proof fn lemma_split_at_separator(a: Seq<char>, b: Seq<char>, sep: char)
    ensures
        split_on(a + seq![sep] + b, sep) == split_on(a, sep) + split_on(b, sep),
    decreases b.len(),
{
    let whole = a + seq![sep] + b;
    if b.len() == 0 {
        assert(whole.drop_last() =~= a);
        assert(whole.last() == sep);
        assert(split_on(a, sep).push(Seq::empty()) =~= split_on(a, sep) + split_on(b, sep));
    } else {
        let front = b.drop_last();
        assert(whole.drop_last() =~= a + seq![sep] + front);
        assert(whole.last() == b.last());
        lemma_split_at_separator(a, front, sep);
        let left = split_on(a, sep);
        let right = split_on(front, sep);
        crate::runner::lemma_split_nonempty(front, sep);
        if b.last() == sep {
            assert((left + right).push(Seq::empty()) =~= left + right.push(Seq::empty()));
        } else {
            assert((left + right).drop_last().push((left + right).last().push(b.last())) =~= left
                + right.drop_last().push(right.last().push(b.last())));
        }
    }
}

/// Whether an `Exec` line is plain: it has no quotation and no field code.
pub open spec fn is_plain(s: Seq<char>) -> bool {
    !has_char(s, '"') && !has_char(s, '%')
}

/// Reading a plain text outside a quotation, starting with the argument
/// `part` half read, gives the arguments that were read before and then the
/// words of `part` and the text together.
proof fn lemma_scan_plain(
    st: ExecScan,
    s: Seq<char>,
    name: Seq<char>,
    icon: Seq<char>,
    file_path: Seq<char>,
)
    requires
        is_plain(s),
        !st.in_quote,
        !has_char(st.part, ' '),
    ensures
        ({
            let end = exec_scan(st, s, name, icon, file_path);
            flushed(end.args, end.part) == st.args + words(split_on(st.part + s, ' '))
        }),
    decreases s.len(),
{
    let nonempty = |w: Seq<char>| w.len() > 0;
    reveal(Seq::filter);
    if s.len() == 0 {
        assert(st.part + s =~= st.part);
        lemma_split_whole(st.part, ' ');
        let one = seq![st.part];
        assert(one.drop_last() =~= Seq::<Seq<char>>::empty());
        assert(one.drop_last().filter(nonempty) =~= Seq::<Seq<char>>::empty());
        if st.part.len() == 0 {
            assert(words(one) =~= Seq::<Seq<char>>::empty());
            assert(st.args + words(one) =~= st.args);
        } else {
            assert(words(one) =~= seq![st.part]);
            assert(st.args + words(one) =~= st.args.push(st.part));
        }
    } else {
        let c = s[0];
        let rest = s.skip(1);
        assert(c != '"' && c != '%');
        assert forall|i: int| 0 <= i < rest.len() implies rest[i] != '"' && rest[i] != '%' by {
            assert(rest[i] == s[i + 1]);
        }
        if c == ' ' {
            let next = ExecScan {
                args: flushed(st.args, st.part),
                part: Seq::empty(),
                in_quote: false,
            };
            lemma_scan_plain(next, rest, name, icon, file_path);
            assert(Seq::<char>::empty() + rest =~= rest);
            assert(st.part + s =~= st.part + seq![' '] + rest);
            lemma_split_at_separator(st.part, rest, ' ');
            lemma_split_whole(st.part, ' ');
            let one = seq![st.part];
            assert(one.drop_last() =~= Seq::<Seq<char>>::empty());
            assert(one.drop_last().filter(nonempty) =~= Seq::<Seq<char>>::empty());
            Seq::filter_distributes_over_add(one, split_on(rest, ' '), nonempty);
            if st.part.len() == 0 {
                assert(words(one) =~= Seq::<Seq<char>>::empty());
                assert(st.args + (words(one) + words(split_on(rest, ' '))) =~= st.args + words(
                    split_on(rest, ' '),
                ));
            } else {
                assert(words(one) =~= seq![st.part]);
                assert(st.args + (words(one) + words(split_on(rest, ' '))) =~= st.args.push(
                    st.part,
                ) + words(split_on(rest, ' ')));
            }
        } else {
            let next = ExecScan { args: st.args, part: st.part.push(c), in_quote: false };
            assert forall|i: int| 0 <= i < next.part.len() implies next.part[i] != ' ' by {
                if i < st.part.len() {
                    assert(next.part[i] == st.part[i]);
                }
            }
            lemma_scan_plain(next, rest, name, icon, file_path);
            assert(st.part.push(c) + rest =~= st.part + s);
        }
    }
}

/// A plain `Exec` line, without quotation and field code, stands for its
/// words: the pieces between its spaces that are not empty.
pub proof fn lemma_exec_plain(
    s: Seq<char>,
    name: Seq<char>,
    icon: Seq<char>,
    file_path: Seq<char>,
)
    requires
        is_plain(s),
    ensures
        exec_args(s, name, icon, file_path) == words(split_on(s, ' ')),
{
    let start = ExecScan { args: Seq::empty(), part: Seq::empty(), in_quote: false };
    lemma_scan_plain(start, s, name, icon, file_path);
    assert(Seq::<char>::empty() + s =~= s);
    assert(Seq::<Seq<char>>::empty() + words(split_on(s, ' ')) =~= words(split_on(s, ' ')));
}

} // verus!
