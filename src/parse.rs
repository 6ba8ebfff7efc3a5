use vstd::prelude::*;

use crate::binding::{letter_for, KeyBinding, Letter, ModifierKey, Modifiers};

verus! {

/// What one token of a shortcut text stands for.
#[derive(Clone, Copy, Debug, PartialEq, Eq, Structural)]
pub enum TokenKind {
    Modifier(ModifierKey),
    Key(Letter),
    Ignored,
}

/// `c` with an ASCII lower-case letter turned upper-case; any other character as it is.
pub open spec fn upper(c: char) -> char {
    if 'a' <= c && c <= 'z' {
        ((c as u32) - 32) as char
    } else {
        c
    }
}

/// The text with every ASCII letter upper-case.
pub open spec fn fold_case(s: Seq<char>) -> Seq<char> {
    s.map_values(|c: char| upper(c))
}

/// The pieces of `s` between the `+` signs, in order; the empty text is one empty piece.
pub open spec fn split_plus(s: Seq<char>) -> Seq<Seq<char>>
    decreases s.len(),
{
    if s.len() == 0 {
        seq![Seq::empty()]
    } else {
        let prev = split_plus(s.drop_last());
        if s.last() == '+' {
            prev.push(Seq::empty())
        } else {
            prev.update(prev.len() - 1, prev.last().push(s.last()))
        }
    }
}

/// What an upper-case token names.
pub open spec fn token_kind(t: Seq<char>) -> TokenKind {
    if t == "CTRL"@ {
        TokenKind::Modifier(ModifierKey::Control)
    } else if t == "SHIFT"@ {
        TokenKind::Modifier(ModifierKey::Shift)
    } else if t == "ALT"@ {
        TokenKind::Modifier(ModifierKey::Alt)
    } else if t == "WIN"@ || t == "META"@ || t == "SUPER"@ {
        TokenKind::Modifier(ModifierKey::Super)
    } else if t.len() == 1 && letter_for(t[0]) is Some {
        TokenKind::Key(letter_for(t[0])->0)
    } else {
        TokenKind::Ignored
    }
}

/// Whether some token names the modifier `m`.
pub open spec fn names_modifier(toks: Seq<Seq<char>>, m: ModifierKey) -> bool {
    exists|i: int| 0 <= i < toks.len() && #[trigger] token_kind(toks[i]) == TokenKind::Modifier(m)
}

/// The union of the modifiers that the tokens name.
pub open spec fn modifiers_of(toks: Seq<Seq<char>>) -> Modifiers {
    Modifiers {
        control: names_modifier(toks, ModifierKey::Control),
        shift: names_modifier(toks, ModifierKey::Shift),
        alt: names_modifier(toks, ModifierKey::Alt),
        super_key: names_modifier(toks, ModifierKey::Super),
    }
}

/// The letter of the last token that names one.
pub open spec fn last_letter(toks: Seq<Seq<char>>) -> Option<Letter>
    decreases toks.len(),
{
    if toks.len() == 0 {
        None
    } else {
        match token_kind(toks.last()) {
            TokenKind::Key(l) => Some(l),
            _ => last_letter(toks.drop_last()),
        }
    }
}

/// The binding that a sequence of upper-case tokens describes: none without a letter.
pub open spec fn binding_of_tokens(toks: Seq<Seq<char>>) -> Option<KeyBinding> {
    match last_letter(toks) {
        Some(key) => Some(KeyBinding { modifiers: modifiers_of(toks), key }),
        None => None,
    }
}

/// The binding that a shortcut text describes, read without regard to case.
pub open spec fn parse_binding(s: Seq<char>) -> Option<KeyBinding> {
    binding_of_tokens(split_plus(fold_case(s)))
}

/// Upper-case of an ASCII letter; any other character unchanged.
pub fn ascii_upper(c: char) -> (r: char)
    ensures
        r == upper(c),
{
    if 'a' <= c && c <= 'z' {
        ((c as u8) - 32) as char
    } else {
        c
    }
}

/// Whether the token holds exactly the characters of `word`.
fn is_word(tok: &Vec<char>, word: &str) -> (r: bool)
    ensures
        r == (tok@ == word@),
{
    let n = word.unicode_len();
    if tok.len() != n {
        return false;
    }
    let mut i: usize = 0;
    while i < n
        invariant
            tok@.len() == n,
            word@.len() == n,
            i <= n,
            forall|j: int| 0 <= j < i ==> tok@[j] == word@[j],
        decreases n - i,
    {
        if tok[i] != word.get_char(i) {
            return false;
        }
        i += 1;
    }
    assert(tok@ =~= word@);
    true
}

/// What an upper-case token names: a modifier, a letter key, or nothing.
pub fn classify_token(tok: &Vec<char>) -> (r: TokenKind)
    ensures
        r == token_kind(tok@),
{
    if is_word(tok, "CTRL") {
        TokenKind::Modifier(ModifierKey::Control)
    } else if is_word(tok, "SHIFT") {
        TokenKind::Modifier(ModifierKey::Shift)
    } else if is_word(tok, "ALT") {
        TokenKind::Modifier(ModifierKey::Alt)
    } else if is_word(tok, "WIN") || is_word(tok, "META") || is_word(tok, "SUPER") {
        TokenKind::Modifier(ModifierKey::Super)
    } else if tok.len() == 1 {
        match Letter::from_char(tok[0]) {
            Some(l) => TokenKind::Key(l),
            None => TokenKind::Ignored,
        }
    } else {
        TokenKind::Ignored
    }
}

proof fn lemma_names_modifier_push(toks: Seq<Seq<char>>, t: Seq<char>, m: ModifierKey)
    ensures
        names_modifier(toks.push(t), m) == (names_modifier(toks, m) || token_kind(t)
            == TokenKind::Modifier(m)),
{
    let ext = toks.push(t);
    if names_modifier(toks, m) {
        let i = choose|i: int|
            0 <= i < toks.len() && #[trigger] token_kind(toks[i]) == TokenKind::Modifier(m);
        assert(ext[i] == toks[i]);
    }
    if token_kind(t) == TokenKind::Modifier(m) {
        assert(ext[toks.len() as int] == t);
    }
    if names_modifier(ext, m) {
        let i = choose|i: int|
            0 <= i < ext.len() && #[trigger] token_kind(ext[i]) == TokenKind::Modifier(m);
        if i < toks.len() {
            assert(ext[i] == toks[i]);
        }
    }
}

/// The binding described by `text`: its `+`-separated tokens, read without
/// regard to case, give the modifiers (`CTRL`, `SHIFT`, `ALT`, and `WIN`,
/// `META` or `SUPER`) and the letter key (a one-letter token; the last one
/// wins). Other tokens are ignored; a text without a letter token gives none.
pub fn parse_shortcut(text: &str) -> (r: Option<KeyBinding>)
    ensures
        r == parse_binding(text@),
{
    let n = text.unicode_len();
    let ghost folded = fold_case(text@);
    let ghost mut done: Seq<Seq<char>> = seq![];
    let mut cur: Vec<char> = Vec::new();
    let mut mods = Modifiers::none();
    let mut key: Option<Letter> = None;
    let mut i: usize = 0;
    assert(folded.take(0) =~= Seq::<char>::empty());
    while i < n
        invariant
            n == text@.len(),
            folded == fold_case(text@),
            i <= n,
            split_plus(folded.take(i as int)) == done.push(cur@),
            forall|m: ModifierKey| #[trigger] mods.has(m) == names_modifier(done, m),
            key == last_letter(done),
        decreases n - i,
    {
        let c = ascii_upper(text.get_char(i));
        assert(folded.take(i + 1).drop_last() =~= folded.take(i as int));
        if c == '+' {
            match classify_token(&cur) {
                TokenKind::Modifier(m) => {
                    mods = mods.with(m);
                },
                TokenKind::Key(l) => {
                    key = Some(l);
                },
                TokenKind::Ignored => {},
            }
            proof {
                assert forall|m: ModifierKey| #[trigger] mods.has(m) == names_modifier(done.push(cur@), m) by {
                    lemma_names_modifier_push(done, cur@, m);
                }
                assert(done.push(cur@).drop_last() =~= done);
                done = done.push(cur@);
            }
            cur = Vec::new();
            assert(split_plus(folded.take(i + 1)) =~= done.push(cur@));
        } else {
            cur.push(c);
            assert(split_plus(folded.take(i + 1)) =~= done.push(cur@));
        }
        i += 1;
    }
    assert(folded.take(n as int) =~= folded);
    let kind = classify_token(&cur);
    match kind {
        TokenKind::Modifier(m) => {
            mods = mods.with(m);
        },
        TokenKind::Key(l) => {
            key = Some(l);
        },
        TokenKind::Ignored => {},
    }
    proof {
        assert forall|m: ModifierKey| #[trigger] mods.has(m) == names_modifier(done.push(cur@), m) by {
            lemma_names_modifier_push(done, cur@, m);
        }
        assert(done.push(cur@).drop_last() =~= done);
        done = done.push(cur@);
        assert(mods.has(ModifierKey::Control) == mods.control);
        assert(mods.has(ModifierKey::Shift) == mods.shift);
        assert(mods.has(ModifierKey::Alt) == mods.alt);
        assert(mods.has(ModifierKey::Super) == mods.super_key);
    }
    match key {
        Some(k) => Some(KeyBinding { modifiers: mods, key: k }),
        None => None,
    }
}

/// Where the last letter comes from: none is found exactly when no token names
/// a letter, and one that is found is named by some token.
proof fn lemma_last_letter_found(toks: Seq<Seq<char>>)
    ensures
        last_letter(toks) is None <==> forall|i: int|
            0 <= i < toks.len() ==> !(#[trigger] token_kind(toks[i]) is Key),
        last_letter(toks) is Some ==> exists|i: int|
            0 <= i < toks.len() && #[trigger] token_kind(toks[i]) == TokenKind::Key(
                last_letter(toks)->0,
            ),
    decreases toks.len(),
{
    if toks.len() > 0 {
        let rest = toks.drop_last();
        lemma_last_letter_found(rest);
        assert forall|i: int| 0 <= i < rest.len() implies rest[i] == toks[i] by {}
        let j = toks.len() - 1;
        assert(toks[j] == toks.last());
        if last_letter(rest) is Some && !(token_kind(toks.last()) is Key) {
            let i = choose|i: int|
                0 <= i < rest.len() && #[trigger] token_kind(rest[i]) == TokenKind::Key(
                    last_letter(rest)->0,
                );
            assert(toks[i] == rest[i]);
        }
        if last_letter(rest) is None && !(token_kind(toks.last()) is Key) {
            assert forall|i: int| 0 <= i < toks.len() implies !(#[trigger] token_kind(
                toks[i],
            ) is Key) by {
                if i < rest.len() {
                    assert(toks[i] == rest[i]);
                }
            }
        }
    }
}

proof fn lemma_last_letter_remove_ignored(toks: Seq<Seq<char>>, i: int)
    requires
        0 <= i < toks.len(),
        token_kind(toks[i]) == TokenKind::Ignored,
    ensures
        last_letter(toks.remove(i)) == last_letter(toks),
    decreases toks.len(),
{
    let r = toks.remove(i);
    if i == toks.len() - 1 {
        assert(r =~= toks.drop_last());
    } else {
        assert(r.last() == toks.last());
        assert(r.drop_last() =~= toks.drop_last().remove(i));
        lemma_last_letter_remove_ignored(toks.drop_last(), i);
    }
}

proof fn lemma_names_modifier_remove_ignored(toks: Seq<Seq<char>>, i: int, m: ModifierKey)
    requires
        0 <= i < toks.len(),
        token_kind(toks[i]) == TokenKind::Ignored,
    ensures
        names_modifier(toks.remove(i), m) == names_modifier(toks, m),
{
    let r = toks.remove(i);
    if names_modifier(toks, m) {
        let j = choose|j: int|
            0 <= j < toks.len() && #[trigger] token_kind(toks[j]) == TokenKind::Modifier(m);
        if j < i {
            assert(r[j] == toks[j]);
        } else {
            assert(r[j - 1] == toks[j]);
        }
    }
    if names_modifier(r, m) {
        let j = choose|j: int|
            0 <= j < r.len() && #[trigger] token_kind(r[j]) == TokenKind::Modifier(m);
        if j < i {
            assert(r[j] == toks[j]);
        } else {
            assert(r[j] == toks[j + 1]);
        }
    }
}

proof fn lemma_names_modifier_same_tokens(a: Seq<Seq<char>>, b: Seq<Seq<char>>, m: ModifierKey)
    requires
        forall|tok: Seq<char>| a.contains(tok) <==> b.contains(tok),
    ensures
        names_modifier(a, m) == names_modifier(b, m),
{
    if names_modifier(a, m) {
        let i = choose|i: int|
            0 <= i < a.len() && #[trigger] token_kind(a[i]) == TokenKind::Modifier(m);
        assert(a.contains(a[i]));
        let j = choose|j: int| 0 <= j < b.len() && b[j] == a[i];
        assert(token_kind(b[j]) == TokenKind::Modifier(m));
    }
    if names_modifier(b, m) {
        let i = choose|i: int|
            0 <= i < b.len() && #[trigger] token_kind(b[i]) == TokenKind::Modifier(m);
        assert(b.contains(b[i]));
        let j = choose|j: int| 0 <= j < a.len() && a[j] == b[i];
        assert(token_kind(a[j]) == TokenKind::Modifier(m));
    }
}

/// Parsing does not depend on the case of ASCII letters: two texts that agree
/// character by character once upper-cased describe the same binding.
pub proof fn lemma_parse_ignores_case(s: Seq<char>, t: Seq<char>)
    requires
        s.len() == t.len(),
        forall|i: int| 0 <= i < s.len() ==> upper(s[i]) == upper(t[i]),
    ensures
        parse_binding(s) == parse_binding(t),
{
    assert(fold_case(s) =~= fold_case(t));
}

/// Reordering or repeating the tokens of a text keeps its binding, as long as
/// all its letter tokens name the same letter.
pub proof fn lemma_parse_ignores_token_order(s: Seq<char>, t: Seq<char>)
    requires
        forall|tok: Seq<char>|
            split_plus(fold_case(s)).contains(tok) <==> split_plus(fold_case(t)).contains(tok),
        forall|i: int, j: int|
            0 <= i < split_plus(fold_case(s)).len() && 0 <= j < split_plus(fold_case(s)).len()
                && #[trigger] token_kind(split_plus(fold_case(s))[i]) is Key
                && #[trigger] token_kind(split_plus(fold_case(s))[j]) is Key ==> token_kind(
                split_plus(fold_case(s))[i],
            ) == token_kind(split_plus(fold_case(s))[j]),
    ensures
        parse_binding(s) == parse_binding(t),
{
    let a = split_plus(fold_case(s));
    let b = split_plus(fold_case(t));
    lemma_names_modifier_same_tokens(a, b, ModifierKey::Control);
    lemma_names_modifier_same_tokens(a, b, ModifierKey::Shift);
    lemma_names_modifier_same_tokens(a, b, ModifierKey::Alt);
    lemma_names_modifier_same_tokens(a, b, ModifierKey::Super);
    lemma_last_letter_found(a);
    lemma_last_letter_found(b);
    if last_letter(a) is Some {
        let i = choose|i: int|
            0 <= i < a.len() && #[trigger] token_kind(a[i]) == TokenKind::Key(last_letter(a)->0);
        assert(a.contains(a[i]));
        let j = choose|j: int| 0 <= j < b.len() && b[j] == a[i];
        assert(token_kind(b[j]) is Key);
        assert(last_letter(b) is Some);
        let k = choose|k: int|
            0 <= k < b.len() && #[trigger] token_kind(b[k]) == TokenKind::Key(last_letter(b)->0);
        assert(b.contains(b[k]));
        let l = choose|l: int| 0 <= l < a.len() && a[l] == b[k];
        assert(token_kind(a[l]) is Key);
        assert(token_kind(a[i]) == token_kind(a[l]));
    } else {
        if last_letter(b) is Some {
            let k = choose|k: int|
                0 <= k < b.len() && #[trigger] token_kind(b[k]) == TokenKind::Key(
                    last_letter(b)->0,
                );
            assert(b.contains(b[k]));
            let l = choose|l: int| 0 <= l < a.len() && a[l] == b[k];
            assert(token_kind(a[l]) is Key);
        }
    }
}

/// A text in which no token is a single letter describes no binding.
pub proof fn lemma_no_letter_token_no_binding(s: Seq<char>)
    requires
        forall|i: int|
            0 <= i < split_plus(fold_case(s)).len() ==> !(#[trigger] split_plus(
                fold_case(s),
            )[i].len() == 1 && letter_for(split_plus(fold_case(s))[i][0]) is Some),
    ensures
        parse_binding(s) is None,
{
    let toks = split_plus(fold_case(s));
    assert forall|i: int| 0 <= i < toks.len() implies !(#[trigger] token_kind(toks[i]) is Key) by {
        assert(!(toks[i].len() == 1 && letter_for(toks[i][0]) is Some));
    }
    lemma_last_letter_found(toks);
}

/// A token that names neither a modifier nor a letter counts for nothing: the
/// text with it and the text without it describe the same binding.
pub proof fn lemma_ignored_token_changes_nothing(s: Seq<char>, t: Seq<char>, i: int)
    requires
        0 <= i < split_plus(fold_case(s)).len(),
        token_kind(split_plus(fold_case(s))[i]) == TokenKind::Ignored,
        split_plus(fold_case(t)) == split_plus(fold_case(s)).remove(i),
    ensures
        parse_binding(s) == parse_binding(t),
{
    let toks = split_plus(fold_case(s));
    lemma_last_letter_remove_ignored(toks, i);
    lemma_names_modifier_remove_ignored(toks, i, ModifierKey::Control);
    lemma_names_modifier_remove_ignored(toks, i, ModifierKey::Shift);
    lemma_names_modifier_remove_ignored(toks, i, ModifierKey::Alt);
    lemma_names_modifier_remove_ignored(toks, i, ModifierKey::Super);
}

} // verus!
