use vstd::prelude::*;

verus! {

/// Unicode `White_Space` property, the set that `char::is_whitespace` tests.
pub open spec fn is_ws(c: char) -> bool {
    ('\u{9}' <= c && c <= '\u{d}') || c == ' ' || c == '\u{85}' || c == '\u{a0}'
        || c == '\u{1680}' || ('\u{2000}' <= c && c <= '\u{200a}') || c == '\u{2028}'
        || c == '\u{2029}' || c == '\u{202f}' || c == '\u{205f}' || c == '\u{3000}'
}

/// Drops leading whitespace.
pub open spec fn trim_start(s: Seq<char>) -> Seq<char>
    decreases s.len(),
{
    if s.len() > 0 && is_ws(s[0]) {
        trim_start(s.drop_first())
    } else {
        s
    }
}

/// Drops trailing whitespace.
pub open spec fn trim_end(s: Seq<char>) -> Seq<char>
    decreases s.len(),
{
    if s.len() > 0 && is_ws(s.last()) {
        trim_end(s.drop_last())
    } else {
        s
    }
}

/// Drops whitespace at both ends, as `str::trim` does.
pub open spec fn trim(s: Seq<char>) -> Seq<char> {
    trim_end(trim_start(s))
}

pub fn is_whitespace(c: char) -> (r: bool)
    ensures
        r == is_ws(c),
{
    ('\u{9}' <= c && c <= '\u{d}') || c == ' ' || c == '\u{85}' || c == '\u{a0}'
        || c == '\u{1680}' || ('\u{2000}' <= c && c <= '\u{200a}') || c == '\u{2028}'
        || c == '\u{2029}' || c == '\u{202f}' || c == '\u{205f}' || c == '\u{3000}'
}

/// Bounds `(a, b)` of the trimmed part of `s[start..end]`.
pub fn trim_bounds(s: &[char], start: usize, end: usize) -> (r: (usize, usize))
    requires
        start <= end <= s@.len(),
    ensures
        start <= r.0 <= r.1 <= end,
        s@.subrange(r.0 as int, r.1 as int) == trim(s@.subrange(start as int, end as int)),
{
    let mut a: usize = start;
    while a < end && is_whitespace(s[a])
        invariant
            start <= a <= end <= s@.len(),
            trim_start(s@.subrange(a as int, end as int)) == trim_start(
                s@.subrange(start as int, end as int),
            ),
        decreases end - a,
    {
        assert(s@.subrange(a as int, end as int).drop_first() =~= s@.subrange(
            a + 1,
            end as int,
        ));
        a = a + 1;
    }
    assert(trim_start(s@.subrange(a as int, end as int)) == s@.subrange(a as int, end as int));
    let mut b: usize = end;
    while b > a && is_whitespace(s[b - 1])
        invariant
            start <= a <= b <= end <= s@.len(),
            trim_end(s@.subrange(a as int, b as int)) == trim(
                s@.subrange(start as int, end as int),
            ),
        decreases b - a,
    {
        assert(s@.subrange(a as int, b as int).drop_last() =~= s@.subrange(
            a as int,
            b - 1,
        ));
        b = b - 1;
    }
    (a, b)
}


/// Characters that end a token in the scene language.
pub open spec fn is_sep(c: char) -> bool {
    c == ' ' || c == ',' || c == ';' || c == '(' || c == ')' || c == '<' || c == '>' || c == '{'
        || c == '}' || c == '+' || c == '-' || c == '*' || c == '/' || c == '\n'
}

pub fn is_separator(c: char) -> (r: bool)
    ensures
        r == is_sep(c),
{
    c == ' ' || c == ',' || c == ';' || c == '(' || c == ')' || c == '<' || c == '>' || c == '{'
        || c == '}' || c == '+' || c == '-' || c == '*' || c == '/' || c == '\n'
}

/// The trimmed word, or nothing when it is blank.
pub open spec fn word(w: Seq<char>) -> Seq<Seq<char>> {
    if trim(w).len() > 0 {
        seq![trim(w)]
    } else {
        seq![]
    }
}

/// Tokens of `s` when `w` is the word already collected before it: every
/// separator ends the pending word and is a token itself, unless it is blank.
pub open spec fn lex_from(s: Seq<char>, w: Seq<char>) -> Seq<Seq<char>>
    decreases s.len(),
{
    if s.len() == 0 {
        word(w)
    } else if is_sep(s[0]) {
        word(w) + word(seq![s[0]]) + lex_from(s.drop_first(), seq![])
    } else {
        lex_from(s.drop_first(), w.push(s[0]))
    }
}

/// Position of the first `//` in `s`, or its length when there is none.
pub open spec fn comment_start(s: Seq<char>) -> int
    decreases s.len(),
{
    if s.len() < 2 {
        s.len() as int
    } else if s[0] == '/' && s[1] == '/' {
        0
    } else {
        1 + comment_start(s.drop_first())
    }
}

/// The line without its `//` comment.
pub open spec fn strip_comment(s: Seq<char>) -> Seq<char> {
    s.take(comment_start(s))
}

/// The token texts of one line of scene text.
pub open spec fn line_tokens(s: Seq<char>) -> Seq<Seq<char>> {
    lex_from(strip_comment(s), seq![])
}

/// Each text paired with the line it was read from.
pub open spec fn tagged(texts: Seq<Seq<char>>, line: u32) -> Seq<(Seq<char>, u32)> {
    texts.map_values(|t: Seq<char>| (t, line))
}

/// One lexical token with the line (counted from 1) it stands on.
#[derive(Debug)]
pub struct Token {
    pub text: String,
    pub line: u32,
}

impl View for Token {
    type V = (Seq<char>, u32);

    open spec fn view(&self) -> (Seq<char>, u32) {
        (self.text@, self.line)
    }
}

/// What a sequence of tokens holds: each one's text and line.
pub open spec fn token_views(v: Seq<Token>) -> Seq<(Seq<char>, u32)> {
    v.map_values(|t: Token| t@)
}

/// Relies on `str::chars` collected into a `Vec`: the characters in order.
#[verifier::external_body]
pub(crate) fn chars_of(s: &str) -> (r: Vec<char>)
    ensures
        r@ == s@,
{
    s.chars().collect()
}

/// Relies on `String: FromIterator<&char>`: the characters in order.
#[verifier::external_body]
fn string_of(c: &[char]) -> (r: String)
    ensures
        r@ == c@,
{
    c.iter().collect()
}

/// Pushes the trimmed word `s[start..end]` as a token when it is not blank.
fn push_word(v: &mut Vec<Token>, s: &[char], start: usize, end: usize, line: u32)
    requires
        start <= end <= s@.len(),
    ensures
        token_views(final(v)@) == token_views(old(v)@) + tagged(
            word(s@.subrange(start as int, end as int)),
            line,
        ),
{
    let (a, b) = trim_bounds(s, start, end);
    let ghost w = s@.subrange(start as int, end as int);
    if a < b {
        let text = string_of(&s[a..b]);
        v.push(Token { text, line });
        assert(token_views(final(v)@) =~= token_views(old(v)@) + tagged(word(w), line));
    } else {
        assert(token_views(final(v)@) =~= token_views(old(v)@) + tagged(word(w), line));
    }
}

/// Appends the tokens of `value`: its trimmed text, when that is not blank.
pub fn push_non_empty(v: &mut Vec<Token>, value: &str, line: u32)
    ensures
        token_views(final(v)@) == token_views(old(v)@) + tagged(word(value@), line),
{
    let c = chars_of(value);
    push_word(v, c.as_slice(), 0, c.len(), line);
    assert(c@.subrange(0, c@.len() as int) =~= value@);
}


/// Position of the first `//` within `s[start..end]`, counted from `start`
/// (`end` when there is none).
fn find_comment(s: &[char], start: usize, end: usize) -> (r: usize)
    requires
        start <= end <= s@.len(),
    ensures
        start <= r <= end,
        r - start == comment_start(s@.subrange(start as int, end as int)),
{
    let mut i: usize = start;
    while i < end
        invariant
            start <= i <= end <= s@.len(),
            comment_start(s@.subrange(start as int, end as int)) == (i - start) + comment_start(
                s@.subrange(i as int, end as int),
            ),
        decreases end - i,
    {
        let ghost t = s@.subrange(i as int, end as int);
        if i + 1 < end && s[i] == '/' && s[i + 1] == '/' {
            return i;
        }
        if i + 1 >= end {
            assert(comment_start(t) == t.len());
            return end;
        }
        assert(t.drop_first() =~= s@.subrange(i + 1, end as int));
        i = i + 1;
    }
    i
}

/// Appends the tokens of `s[start..end]`, every one on line `line`.
fn lex_range(out: &mut Vec<Token>, s: &[char], start: usize, end: usize, line: u32)
    requires
        start <= end <= s@.len(),
    ensures
        token_views(final(out)@) == token_views(old(out)@) + tagged(
            lex_from(s@.subrange(start as int, end as int), seq![]),
            line,
        ),
{
    let ghost goal = lex_from(s@.subrange(start as int, end as int), seq![]);
    let mut w: usize = start;
    let mut i: usize = start;
    assert(s@.subrange(start as int, start as int) =~= Seq::<char>::empty());
    while i < end
        invariant
            start <= w <= i <= end <= s@.len(),
            token_views(out@) + tagged(
                lex_from(s@.subrange(i as int, end as int), s@.subrange(w as int, i as int)),
                line,
            ) == token_views(old(out)@) + tagged(goal, line),
        decreases end - i,
    {
        let ghost rest = s@.subrange(i as int, end as int);
        let ghost pending = s@.subrange(w as int, i as int);
        assert(rest[0] == s[i as int]);
        assert(rest.drop_first() =~= s@.subrange(i + 1, end as int));
        if is_separator(s[i]) {
            let ghost before = token_views(out@);
            push_word(out, s, w, i, line);
            push_word(out, s, i, i + 1, line);
            assert(s@.subrange(i as int, i + 1) =~= seq![s[i as int]]);
            assert(s@.subrange(i + 1, i + 1) =~= Seq::<char>::empty());
            assert(tagged(
                lex_from(rest, pending),
                line,
            ) =~= tagged(word(pending), line) + tagged(word(seq![s[i as int]]), line) + tagged(
                lex_from(s@.subrange(i + 1, end as int), seq![]),
                line,
            ));
            assert(token_views(out@) =~= before + tagged(word(pending), line) + tagged(
                word(seq![s[i as int]]),
                line,
            ));
            w = i + 1;
        } else {
            assert(pending.push(s[i as int]) =~= s@.subrange(w as int, i + 1));
        }
        i = i + 1;
    }
    push_word(out, s, w, end, line);
    assert(s@.subrange(end as int, end as int) =~= Seq::<char>::empty());
}


/// The part of `line` before its first `//`.
pub fn strip_line_comments(line: &String) -> (r: String)
    ensures
        r@ == strip_comment(line@),
{
    let c = chars_of(line.as_str());
    let k = find_comment(c.as_slice(), 0, c.len());
    assert(c@.subrange(0, c@.len() as int) =~= line@);
    let r = string_of(&c.as_slice()[0..k]);
    assert(r@ =~= strip_comment(line@));
    r
}

/// The tokens of one line of scene text, each tagged with `line_no`.
pub fn tokenize(line_in: &String, line_no: u32) -> (r: Vec<Token>)
    ensures
        token_views(r@) == tagged(line_tokens(line_in@), line_no),
{
    let c = chars_of(line_in.as_str());
    let k = find_comment(c.as_slice(), 0, c.len());
    assert(c@.subrange(0, c@.len() as int) =~= line_in@);
    assert(c@.subrange(0, k as int) =~= strip_comment(line_in@));
    let mut v: Vec<Token> = Vec::new();
    lex_range(&mut v, c.as_slice(), 0, k, line_no);
    assert(token_views(v@) =~= tagged(line_tokens(line_in@), line_no));
    v
}

/// A line without the carriage return that ends it, if any.
pub open spec fn strip_cr(l: Seq<char>) -> Seq<char> {
    if l.len() > 0 && l.last() == '\r' {
        l.drop_last()
    } else {
        l
    }
}

/// Lines of `s` after the partial line `cur`, split as `str::lines` does:
/// at `\n`, dropping a `\r` before it, with no line after a final `\n`.
pub open spec fn lines_from(s: Seq<char>, cur: Seq<char>) -> Seq<Seq<char>>
    decreases s.len(),
{
    if s.len() == 0 {
        if cur.len() == 0 {
            seq![]
        } else {
            seq![cur]
        }
    } else if s[0] == '\n' {
        seq![strip_cr(cur)] + lines_from(s.drop_first(), seq![])
    } else {
        lines_from(s.drop_first(), cur.push(s[0]))
    }
}

/// The lines of a text.
pub open spec fn lines_of(s: Seq<char>) -> Seq<Seq<char>> {
    lines_from(s, seq![])
}

/// Tokens of the first `n` lines, line `i` (from 0) tagged with number `i + 1`.
pub open spec fn tokens_of_lines(lines: Seq<Seq<char>>, n: nat) -> Seq<(Seq<char>, u32)>
    decreases n,
{
    if n == 0 {
        seq![]
    } else {
        tokens_of_lines(lines, (n - 1) as nat) + tagged(
            line_tokens(lines[n - 1]),
            n as u32,
        )
    }
}

/// All tokens of a scene text: a placeholder `START` token on line 0, then
/// the tokens of each line in turn.
pub open spec fn text_tokens(s: Seq<char>) -> Seq<(Seq<char>, u32)> {
    seq![("START"@, 0u32)] + tokens_of_lines(lines_of(s), lines_of(s).len())
}

/// Appends the tokens of the line `s[start..end]` (a `\r` at its end dropped).
fn lex_line(out: &mut Vec<Token>, s: &[char], start: usize, end: usize, line: u32)
    requires
        start <= end <= s@.len(),
    ensures
        token_views(final(out)@) == token_views(old(out)@) + tagged(
            line_tokens(strip_cr(s@.subrange(start as int, end as int))),
            line,
        ),
{
    let ghost l = s@.subrange(start as int, end as int);
    let mut e = end;
    if start < end && s[end - 1] == '\r' {
        e = end - 1;
        assert(strip_cr(l) =~= s@.subrange(start as int, e as int));
    } else {
        assert(strip_cr(l) =~= s@.subrange(start as int, e as int));
    }
    let k = find_comment(s, start, e);
    assert(s@.subrange(start as int, k as int) =~= strip_comment(strip_cr(l)));
    lex_range(out, s, start, k, line);
}

/// The tokens of a whole scene text, as `text_tokens` describes them.
pub fn read_tokens(content: &str) -> (r: Vec<Token>)
    requires
        content@.len() < u32::MAX,
    ensures
        token_views(r@) == text_tokens(content@),
{
    let c = chars_of(content);
    let n = c.len();
    let ghost lines = lines_of(content@);
    let mut out: Vec<Token> = Vec::new();
    out.push(Token { text: "START".to_owned(), line: 0 });
    assert(token_views(out@) =~= seq![("START"@, 0u32)] + tokens_of_lines(lines, 0));
    let mut line_no: u32 = 1;
    let mut w: usize = 0;
    let mut i: usize = 0;
    assert(c@.subrange(0, 0) =~= Seq::<char>::empty());
    assert(c@.subrange(0, n as int) =~= content@);
    while i < n
        invariant
            n == c@.len(),
            c@ == content@,
            n < u32::MAX,
            w <= i <= n,
            1 <= line_no <= w + 1,
            line_no - 1 <= lines.len(),
            lines == lines_of(content@),
            lines_from(c@.subrange(i as int, n as int), c@.subrange(w as int, i as int))
                == lines.skip(line_no - 1),
            token_views(out@) == seq![("START"@, 0u32)] + tokens_of_lines(
                lines,
                (line_no - 1) as nat,
            ),
        decreases n - i,
    {
        let ghost rest = c@.subrange(i as int, n as int);
        let ghost pending = c@.subrange(w as int, i as int);
        assert(rest[0] == c[i as int]);
        assert(rest.drop_first() =~= c@.subrange(i + 1, n as int));
        if c[i] == '\n' {
            assert(lines_from(rest, pending) == seq![strip_cr(pending)] + lines_from(
                rest.drop_first(),
                seq![],
            ));
            assert(lines.skip(line_no - 1)[0] == lines[line_no - 1]);
            assert(lines.skip(line_no as int) =~= lines.skip(line_no - 1).drop_first());
            lex_line(&mut out, c.as_slice(), w, i, line_no);
            assert(tokens_of_lines(lines, line_no as nat) == tokens_of_lines(
                lines,
                (line_no - 1) as nat,
            ) + tagged(line_tokens(lines[line_no - 1]), line_no));
            assert(token_views(out@) =~= seq![("START"@, 0u32)] + tokens_of_lines(
                lines,
                line_no as nat,
            ));
            line_no = line_no + 1;
            w = i + 1;
            assert(c@.subrange(w as int, w as int) =~= Seq::<char>::empty());
        } else {
            assert(pending.push(c[i as int]) =~= c@.subrange(w as int, i + 1));
        }
        i = i + 1;
    }
    let ghost pending = c@.subrange(w as int, n as int);
    assert(c@.subrange(n as int, n as int) =~= Seq::<char>::empty());
    if w < n {
        assert(lines_from(Seq::<char>::empty(), pending) == seq![pending]);
        assert(lines.skip(line_no - 1)[0] == lines[line_no - 1]);
        assert(lines.len() == line_no);
        let k = find_comment(c.as_slice(), w, n);
        assert(c@.subrange(w as int, k as int) =~= strip_comment(pending));
        lex_range(&mut out, c.as_slice(), w, k, line_no);
        assert(tokens_of_lines(lines, line_no as nat) == tokens_of_lines(
            lines,
            (line_no - 1) as nat,
        ) + tagged(line_tokens(lines[line_no - 1]), line_no));
        assert(token_views(out@) =~= text_tokens(content@));
    } else {
        assert(lines.len() == line_no - 1);
    }
    out
}

/// Lexical class of a token.
#[derive(Debug, Clone, Copy, PartialEq, Eq, Structural)]
pub enum Symbol {
    Camera,
    Location,
    LookAt,
    Sphere,
    Box,
    Quadric,
    Light,
    Intersection,
    Difference,
    Object,
    Plus,
    Minus,
    Multiply,
    Divide,
    Equal,
    BlockOpen,
    BlockClose,
    VectorOpen,
    VectorClose,
    ParenOpen,
    ParenClose,
    Comma,
    Semicolon,
    Translate,
    Rotate,
    Scale,
    Texture,
    Pigment,
    Finish,
    Surface,
    Metallic,
    Reflection,
    Color,
    Rgb,
    Angle,
    Diffuse,
    Phong,
    PhongSize,
    Checker,
    Declare,
    While,
    End,
    Id,
    Eof,
    Unset,
}

/// The keywords and punctuation of the scene language with their symbols,
/// in lookup order.
pub open spec fn symbol_entries() -> Seq<(Seq<char>, Symbol)> {
    seq![
        ("camera"@, Symbol::Camera),
        ("look_at"@, Symbol::LookAt),
        ("location"@, Symbol::Location),
        ("{"@, Symbol::BlockOpen),
        ("}"@, Symbol::BlockClose),
        ("intersection"@, Symbol::Intersection),
        ("difference"@, Symbol::Difference),
        ("object"@, Symbol::Object),
        ("<"@, Symbol::VectorOpen),
        (">"@, Symbol::VectorClose),
        (","@, Symbol::Comma),
        (";"@, Symbol::Semicolon),
        ("sphere"@, Symbol::Sphere),
        ("box"@, Symbol::Box),
        ("quadric"@, Symbol::Quadric),
        ("light"@, Symbol::Light),
        ("texture"@, Symbol::Texture),
        ("pigment"@, Symbol::Pigment),
        ("finish"@, Symbol::Finish),
        ("surface"@, Symbol::Surface),
        ("reflection"@, Symbol::Reflection),
        ("metallic"@, Symbol::Metallic),
        ("color"@, Symbol::Color),
        ("rgb"@, Symbol::Rgb),
        ("checker"@, Symbol::Checker),
        ("angle"@, Symbol::Angle),
        ("diffuse"@, Symbol::Diffuse),
        ("phong"@, Symbol::Phong),
        ("phong_size"@, Symbol::PhongSize),
        ("translate"@, Symbol::Translate),
        ("rotate"@, Symbol::Rotate),
        ("scale"@, Symbol::Scale),
        ("+"@, Symbol::Plus),
        ("-"@, Symbol::Minus),
        ("*"@, Symbol::Multiply),
        ("/"@, Symbol::Divide),
        ("("@, Symbol::ParenOpen),
        (")"@, Symbol::ParenClose),
        ("="@, Symbol::Equal),
        ("#declare"@, Symbol::Declare),
        ("#while"@, Symbol::While),
        ("#end"@, Symbol::End),
    ]
}

/// Keys and symbols of a symbol table.
pub open spec fn entry_views(v: Seq<(String, Symbol)>) -> Seq<(Seq<char>, Symbol)> {
    v.map_values(|e: (String, Symbol)| (e.0@, e.1))
}

/// The symbol of the first entry whose key is `t`; `Id` when none is.
pub open spec fn lookup(entries: Seq<(Seq<char>, Symbol)>, t: Seq<char>) -> Symbol
    decreases entries.len(),
{
    if entries.len() == 0 {
        Symbol::Id
    } else if entries[0].0 == t {
        entries[0].1
    } else {
        lookup(entries.drop_first(), t)
    }
}

/// The symbol of a token text in the scene language.
pub open spec fn symbol_of(t: Seq<char>) -> Symbol {
    lookup(symbol_entries(), t)
}

/// The symbol that `map` gives `token`: that of its first entry with that
/// key, or `Id` for any other word.
pub fn to_symbol(map: &Vec<(String, Symbol)>, token: &String) -> (r: Symbol)
    ensures
        r == lookup(entry_views(map@), token@),
{
    let ghost e = entry_views(map@);
    let mut i: usize = 0;
    assert(e.skip(0) =~= e);
    while i < map.len()
        invariant
            i <= map@.len(),
            e == entry_views(map@),
            lookup(e, token@) == lookup(e.skip(i as int), token@),
        decreases map@.len() - i,
    {
        assert(e.skip(i as int)[0] == e[i as int]);
        if map[i].0 == *token {
            return map[i].1;
        }
        assert(e.skip(i + 1) =~= e.skip(i as int).drop_first());
        i = i + 1;
    }
    assert(e.skip(i as int).len() == 0);
    Symbol::Id
}

/// The table of keywords and punctuation, in the order of `symbol_entries`.
pub fn build_symbol_map() -> (r: Vec<(String, Symbol)>)
    ensures
        entry_views(r@) == symbol_entries(),
{
    let mut map: Vec<(String, Symbol)> = Vec::new();
    map.push(("camera".to_owned(), Symbol::Camera));
    map.push(("look_at".to_owned(), Symbol::LookAt));
    map.push(("location".to_owned(), Symbol::Location));
    map.push(("{".to_owned(), Symbol::BlockOpen));
    map.push(("}".to_owned(), Symbol::BlockClose));
    map.push(("intersection".to_owned(), Symbol::Intersection));
    map.push(("difference".to_owned(), Symbol::Difference));
    map.push(("object".to_owned(), Symbol::Object));
    map.push(("<".to_owned(), Symbol::VectorOpen));
    map.push((">".to_owned(), Symbol::VectorClose));
    map.push((",".to_owned(), Symbol::Comma));
    map.push((";".to_owned(), Symbol::Semicolon));
    map.push(("sphere".to_owned(), Symbol::Sphere));
    map.push(("box".to_owned(), Symbol::Box));
    map.push(("quadric".to_owned(), Symbol::Quadric));
    map.push(("light".to_owned(), Symbol::Light));
    map.push(("texture".to_owned(), Symbol::Texture));
    map.push(("pigment".to_owned(), Symbol::Pigment));
    map.push(("finish".to_owned(), Symbol::Finish));
    map.push(("surface".to_owned(), Symbol::Surface));
    map.push(("reflection".to_owned(), Symbol::Reflection));
    map.push(("metallic".to_owned(), Symbol::Metallic));
    map.push(("color".to_owned(), Symbol::Color));
    map.push(("rgb".to_owned(), Symbol::Rgb));
    map.push(("checker".to_owned(), Symbol::Checker));
    map.push(("angle".to_owned(), Symbol::Angle));
    map.push(("diffuse".to_owned(), Symbol::Diffuse));
    map.push(("phong".to_owned(), Symbol::Phong));
    map.push(("phong_size".to_owned(), Symbol::PhongSize));
    map.push(("translate".to_owned(), Symbol::Translate));
    map.push(("rotate".to_owned(), Symbol::Rotate));
    map.push(("scale".to_owned(), Symbol::Scale));
    map.push(("+".to_owned(), Symbol::Plus));
    map.push(("-".to_owned(), Symbol::Minus));
    map.push(("*".to_owned(), Symbol::Multiply));
    map.push(("/".to_owned(), Symbol::Divide));
    map.push(("(".to_owned(), Symbol::ParenOpen));
    map.push((")".to_owned(), Symbol::ParenClose));
    map.push(("=".to_owned(), Symbol::Equal));
    map.push(("#declare".to_owned(), Symbol::Declare));
    map.push(("#while".to_owned(), Symbol::While));
    map.push(("#end".to_owned(), Symbol::End));
    assert(entry_views(map@) =~= symbol_entries());
    map
}

} // verus!
