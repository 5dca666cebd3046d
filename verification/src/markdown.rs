use vstd::prelude::*;

verus! {

/// What one character of chat output becomes: a newline is written as two
/// spaces followed by a backslash and the letter `n`; any other character
/// stays as it is.
pub open spec fn escape_char(c: char) -> Seq<char> {
    if c == '\n' {
        seq![' ', ' ', '\\', 'n']
    } else {
        seq![c]
    }
}

/// The escaped form of a whole text, character by character.
pub open spec fn md_spaces_spec(s: Seq<char>) -> Seq<char>
    decreases s.len(),
{
    if s.len() == 0 {
        Seq::empty()
    } else {
        md_spaces_spec(s.drop_last()) + escape_char(s.last())
    }
}

/// Calls `String::push`. Trusted claim: the text of `s` gets `c` appended
/// and is otherwise unchanged.
#[verifier::external_body]
fn push_char(s: &mut String, c: char)
    ensures
        final(s)@ == old(s)@.push(c),
{
    s.push(c);
}

/// Replaces every newline of `s` by two spaces, a backslash and an `n`, so
/// that the chat's markdown renderer keeps the line structure.
pub fn md_spaces(s: &str) -> (res: String)
    ensures
        res@ == md_spaces_spec(s@),
{
    broadcast use vstd::string::group_string_axioms;
    let mut out = String::new();
    for c in it: s.chars()
        invariant
            it.seq() == s@,
            out@ == md_spaces_spec(s@.take(it.index() as int)),
    {
        proof {
            assert(c == s@[it.index() as int]);
            assert(s@.take(it.index() + 1).drop_last() == s@.take(it.index() as int));
        }
        if c == '\n' {
            push_char(&mut out, ' ');
            push_char(&mut out, ' ');
            push_char(&mut out, '\\');
            push_char(&mut out, 'n');
        } else {
            push_char(&mut out, c);
        }
    }
    proof {
        assert(s@.take(s@.len() as int) == s@);
    }
    out
}

/// Escaping distributes over concatenation: escaping a text in two pieces
/// and joining the results gives the escaped whole.
pub proof fn lemma_md_spaces_concat(a: Seq<char>, b: Seq<char>)
    ensures
        md_spaces_spec(a + b) == md_spaces_spec(a) + md_spaces_spec(b),
    decreases b.len(),
{
    if b.len() == 0 {
        assert(a + b == a);
        assert(md_spaces_spec(b) == Seq::<char>::empty());
        assert(md_spaces_spec(a) + md_spaces_spec(b) == md_spaces_spec(a));
    } else {
        assert((a + b).drop_last() == a + b.drop_last());
        assert((a + b).last() == b.last());
        lemma_md_spaces_concat(a, b.drop_last());
        assert(md_spaces_spec(a) + md_spaces_spec(b.drop_last()) + escape_char(b.last())
            == md_spaces_spec(a) + (md_spaces_spec(b.drop_last()) + escape_char(b.last())));
    }
}

/// No newline is left in escaped text.
pub proof fn lemma_md_spaces_has_no_newline(s: Seq<char>)
    ensures
        !md_spaces_spec(s).contains('\n'),
    decreases s.len(),
{
    if s.len() > 0 {
        lemma_md_spaces_has_no_newline(s.drop_last());
        let e = escape_char(s.last());
        let p = md_spaces_spec(s.drop_last());
        assert(!e.contains('\n'));
        assert forall|i: int| 0 <= i < (p + e).len() implies (p + e)[i] != '\n' by {
            if i < p.len() {
                assert((p + e)[i] == p[i]);
            } else {
                assert((p + e)[i] == e[i - p.len()]);
            }
        }
    }
}

/// Text without newlines is left unchanged.
pub proof fn lemma_md_spaces_keeps_single_lines(s: Seq<char>)
    requires
        !s.contains('\n'),
    ensures
        md_spaces_spec(s) == s,
    decreases s.len(),
{
    if s.len() > 0 {
        assert(!s.drop_last().contains('\n')) by {
            assert forall|i: int| 0 <= i < s.drop_last().len() implies s.drop_last()[i] != '\n' by {
                assert(s.drop_last()[i] == s[i]);
            }
        }
        lemma_md_spaces_keeps_single_lines(s.drop_last());
        assert(s.last() == s[s.len() - 1]);
        assert(s.drop_last().push(s.last()) == s);
    }
}

/// The number of newlines in a text.
pub open spec fn newline_count(s: Seq<char>) -> nat
    decreases s.len(),
{
    if s.len() == 0 {
        0
    } else {
        newline_count(s.drop_last()) + if s.last() == '\n' { 1nat } else { 0nat }
    }
}

/// Each newline grows the text by three characters; nothing else changes
/// its length.
pub proof fn lemma_md_spaces_len(s: Seq<char>)
    ensures
        md_spaces_spec(s).len() == s.len() + 3 * newline_count(s),
    decreases s.len(),
{
    if s.len() > 0 {
        lemma_md_spaces_len(s.drop_last());
    }
}

/// One character alone: a newline becomes two spaces, a backslash and `n`;
/// every other character is kept.
pub proof fn lemma_md_spaces_single_char(c: char)
    ensures
        c == '\n' ==> md_spaces_spec(seq![c]) == seq![' ', ' ', '\\', 'n'],
        c != '\n' ==> md_spaces_spec(seq![c]) == seq![c],
{
    assert(seq![c].drop_last() == Seq::<char>::empty());
    assert(seq![c].last() == c);
    assert(md_spaces_spec(Seq::<char>::empty()) == Seq::<char>::empty());
    assert(Seq::<char>::empty() + escape_char(c) == escape_char(c));
    assert(md_spaces_spec(seq![c]) == escape_char(c));
}

/// The escape of a newline.
pub open spec fn escaped_newline() -> Seq<char> {
    seq![' ', ' ', '\\', 'n']
}

/// Undoes the escaping: replaces each two spaces, backslash and `n`, from
/// left to right without overlap, by a newline.
pub open spec fn unescape_spec(t: Seq<char>) -> Seq<char>
    decreases t.len(),
{
    if t.len() == 0 {
        Seq::empty()
    } else if t.len() >= 4 && t.take(4) == escaped_newline() {
        seq!['\n'] + unescape_spec(t.skip(4))
    } else {
        seq![t[0]] + unescape_spec(t.drop_first())
    }
}

/// Escaping a text character by character from its front.
proof fn lemma_md_spaces_front(s: Seq<char>)
    requires
        s.len() > 0,
    ensures
        md_spaces_spec(s) == escape_char(s[0]) + md_spaces_spec(s.drop_first()),
{
    let head = seq![s[0]];
    assert(head + s.drop_first() == s);
    lemma_md_spaces_concat(head, s.drop_first());
    assert(head.drop_last() == Seq::<char>::empty());
    assert(head.last() == s[0]);
    assert(md_spaces_spec(Seq::<char>::empty()) == Seq::<char>::empty());
    assert(Seq::<char>::empty() + escape_char(s[0]) == escape_char(s[0]));
    assert(md_spaces_spec(head) == escape_char(s[0]));
}

/// Escaped text without backslashes in its source starts with no backslash.
proof fn lemma_md_spaces_first_not_backslash(s: Seq<char>)
    requires
        !s.contains('\\'),
        md_spaces_spec(s).len() >= 1,
    ensures
        md_spaces_spec(s)[0] != '\\',
{
    if s.len() == 0 {
        assert(md_spaces_spec(s).len() == 0);
    } else {
        lemma_md_spaces_front(s);
        assert(s[0] != '\\');
    }
}

/// ... nor has a backslash in its second place.
proof fn lemma_md_spaces_second_not_backslash(s: Seq<char>)
    requires
        !s.contains('\\'),
        md_spaces_spec(s).len() >= 2,
    ensures
        md_spaces_spec(s)[1] != '\\',
{
    if s.len() == 0 {
        assert(md_spaces_spec(s).len() == 0);
    } else {
        lemma_md_spaces_front(s);
        let rest = s.drop_first();
        assert(!rest.contains('\\')) by {
            assert forall|i: int| 0 <= i < rest.len() implies rest[i] != '\\' by {
                assert(rest[i] == s[i + 1]);
            }
        }
        if s[0] != '\n' {
            assert(md_spaces_spec(s)[1] == md_spaces_spec(rest)[0]);
            lemma_md_spaces_first_not_backslash(rest);
        }
    }
}

/// Escaping can be undone: for a text without backslashes, replacing each
/// escape in the escaped text by a newline gives the text back.
pub proof fn lemma_md_spaces_unescape(s: Seq<char>)
    requires
        !s.contains('\\'),
    ensures
        unescape_spec(md_spaces_spec(s)) == s,
    decreases s.len(),
{
    if s.len() == 0 {
        assert(md_spaces_spec(s) == Seq::<char>::empty());
    } else {
        let t = md_spaces_spec(s);
        let rest = s.drop_first();
        assert(!rest.contains('\\')) by {
            assert forall|i: int| 0 <= i < rest.len() implies rest[i] != '\\' by {
                assert(rest[i] == s[i + 1]);
            }
        }
        lemma_md_spaces_front(s);
        lemma_md_spaces_unescape(rest);
        if s[0] == '\n' {
            assert(t.take(4) == escaped_newline());
            assert(t.skip(4) == md_spaces_spec(rest));
            assert(seq!['\n'] + rest == s);
        } else {
            assert(s[0] != '\\');
            assert(t[0] == s[0]);
            assert(t.drop_first() == md_spaces_spec(rest));
            if t.len() >= 4 && t.take(4) == escaped_newline() {
                assert(t[2] == '\\');
                assert(t[2] == md_spaces_spec(rest)[1]);
                lemma_md_spaces_second_not_backslash(rest);
            }
            assert(seq![s[0]] + rest == s);
        }
    }
}

} // verus!
