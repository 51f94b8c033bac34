//! The text escaper: TeX-like markup in a field value becomes typeset Unicode.
//!
//! What the escaper produces is defined by [`escape`], which reads the input as
//! a sequence of tokens, each the longest that can start at its place. The
//! scanner [`escape_chars`] is a single pass with a small state, and is proved
//! to write exactly that.
use vstd::prelude::*;
use crate::chars::{chars_of, string_of};

verus! {

/// A field value that is shown with its dashes, quotes and commands typeset.
pub struct Text<'s>(pub &'s str);

/// The commands that the escaper knows.
#[derive(Clone, Copy, Debug, PartialEq, Eq, Structural)]
pub enum Command {
    Dots,
    Ampersand,
    Dollar,
}

/// The command that the token `tok` names, backslash included.
pub open spec fn command_named(tok: Seq<char>) -> Option<Command> {
    if tok =~= seq!['\\', 'd', 'o', 't', 's'] {
        Some(Command::Dots)
    } else if tok =~= seq!['\\', '&'] {
        Some(Command::Ampersand)
    } else if tok =~= seq!['\\', '$'] {
        Some(Command::Dollar)
    } else {
        None
    }
}

/// What a command token writes: the command's symbol, or nothing where the
/// token names no command.
pub open spec fn command_text(tok: Seq<char>) -> Seq<char> {
    match command_named(tok) {
        Some(cmd) => seq![cmd.symbol_spec()],
        None => Seq::empty(),
    }
}

/// The first place at or after `i` that holds a space or a backslash, or the
/// end of `s`: where a command name that reaches `i` ends.
pub open spec fn command_end(s: Seq<char>, i: int) -> int
    decreases s.len() - i,
{
    if i < 0 || i >= s.len() {
        s.len() as int
    } else if s[i] == ' ' || s[i] == '\\' {
        i
    } else {
        command_end(s, i + 1)
    }
}

pub proof fn lemma_command_end_bounds(s: Seq<char>, i: int)
    requires
        0 <= i <= s.len(),
    ensures
        i <= command_end(s, i) <= s.len(),
    decreases s.len() - i,
{
    if i < s.len() && !(s[i] == ' ' || s[i] == '\\') {
        lemma_command_end_bounds(s, i + 1);
    }
}

/// The escaped form of what `s` holds from place `i` on.
pub open spec fn escape_from(s: Seq<char>, i: int) -> Seq<char>
    decreases s.len() - i,
    via escape_from_decreases
{
    if i < 0 || i >= s.len() {
        Seq::empty()
    } else if s[i] == '-' {
        if i + 2 < s.len() && s[i + 1] == '-' && s[i + 2] == '-' {
            seq!['—'] + escape_from(s, i + 3)
        } else if i + 1 < s.len() && s[i + 1] == '-' {
            seq!['–'] + escape_from(s, i + 2)
        } else {
            seq!['-'] + escape_from(s, i + 1)
        }
    } else if s[i] == '`' {
        if i + 1 < s.len() && s[i + 1] == '`' {
            seq!['“'] + escape_from(s, i + 2)
        } else {
            seq!['‘'] + escape_from(s, i + 1)
        }
    } else if s[i] == '\'' {
        if i + 1 < s.len() && s[i + 1] == '\'' {
            seq!['”'] + escape_from(s, i + 2)
        } else {
            seq!['’'] + escape_from(s, i + 1)
        }
    } else if s[i] == '\\' {
        if i + 1 < s.len() && s[i + 1] == '\\' {
            seq!['\\'] + escape_from(s, i + 2)
        } else {
            let j = command_end(s, i + 1);
            let tok = s.subrange(i, j);
            if j < s.len() && s[j] == ' ' {
                // The space ends the command. It is written after a known
                // command and dropped with an unknown one.
                (match command_named(tok) {
                    Some(cmd) => seq![cmd.symbol_spec(), ' '],
                    None => Seq::empty(),
                }) + escape_from(s, j + 1)
            } else {
                // The end of the input, or a backslash that starts the next
                // command.
                command_text(tok) + escape_from(s, j)
            }
        }
    } else {
        seq![s[i]] + escape_from(s, i + 1)
    }
}

#[via_fn]
proof fn escape_from_decreases(s: Seq<char>, i: int) {
    if 0 <= i < s.len() {
        lemma_command_end_bounds(s, i + 1);
    }
}

/// The escaped form of `s`.
pub open spec fn escape(s: Seq<char>) -> Seq<char> {
    escape_from(s, 0)
}

impl Command {
    /// The character that the command stands for.
    pub open spec fn symbol_spec(self) -> char {
        match self {
            Command::Dots => '…',
            Command::Ampersand => '&',
            Command::Dollar => '$',
        }
    }

    /// The character that the command stands for.
    pub fn symbol(self) -> (c: char)
        ensures
            c == self.symbol_spec(),
    {
        match self {
            Command::Dots => '…',
            Command::Ampersand => '&',
            Command::Dollar => '$',
        }
    }

    /// The command named by the characters of `s` from `start` up to `end`,
    /// the backslash included. A span that does not lie in `s` names none.
    pub fn from_span(s: &Vec<char>, start: usize, end: usize) -> (cmd: Option<Command>)
        ensures
            start <= end <= s.len() ==> cmd == command_named(s@.subrange(start as int, end as int)),
            !(start <= end <= s.len()) ==> cmd.is_none(),
    {
        if start > end || end > s.len() {
            return None;
        }
        let ghost tok = s@.subrange(start as int, end as int);
        let n = end - start;
        if n == 5 && s[start] == '\\' && s[start + 1] == 'd' && s[start + 2] == 'o' && s[start + 3]
            == 't' && s[start + 4] == 's' {
            assert(tok =~= seq!['\\', 'd', 'o', 't', 's']);
            Some(Command::Dots)
        } else if n == 2 && s[start] == '\\' && s[start + 1] == '&' {
            assert(tok =~= seq!['\\', '&']);
            Some(Command::Ampersand)
        } else if n == 2 && s[start] == '\\' && s[start + 1] == '$' {
            assert(tok =~= seq!['\\', '$']);
            Some(Command::Dollar)
        } else {
            assert(!(tok =~= seq!['\\', 'd', 'o', 't', 's'])) by {
                if tok.len() == 5 {
                    assert(tok[0] == s@[start as int]);
                    assert(tok[1] == s@[start + 1]);
                    assert(tok[2] == s@[start + 2]);
                    assert(tok[3] == s@[start + 3]);
                    assert(tok[4] == s@[start + 4]);
                }
            }
            assert(!(tok =~= seq!['\\', '&']) && !(tok =~= seq!['\\', '$'])) by {
                if tok.len() == 2 {
                    assert(tok[0] == s@[start as int]);
                    assert(tok[1] == s@[start + 1]);
                }
            }
            None
        }
    }
}

/// What the scanner has read and not yet written.
#[derive(Clone, Copy, Debug)]
pub enum PrintState {
    Normal,
    Dash,
    EnDash,
    Grave,
    Apostrofe,
    /// A command whose backslash stands at the place given.
    Command(usize),
}

impl PrintState {
    /// The place where the token that is being read began, when the scanner
    /// stands before place `i`.
    pub open spec fn token_start(self, i: int) -> int {
        match self {
            PrintState::Normal => i,
            PrintState::Dash => i - 1,
            PrintState::EnDash => i - 2,
            PrintState::Grave => i - 1,
            PrintState::Apostrofe => i - 1,
            PrintState::Command(k) => k as int,
        }
    }

    /// The state agrees with what `s` holds before place `i`.
    pub open spec fn agrees(self, s: Seq<char>, i: int) -> bool {
        let k = self.token_start(i);
        &&& 0 <= k <= i <= s.len()
        &&& match self {
            PrintState::Normal => true,
            PrintState::Dash => s[k] == '-',
            PrintState::EnDash => s[k] == '-' && s[k + 1] == '-',
            PrintState::Grave => s[k] == '`',
            PrintState::Apostrofe => s[k] == '\'',
            PrintState::Command(_) => {
                &&& k < i
                &&& s[k] == '\\'
                &&& i > k + 1 ==> s[k + 1] != '\\'
                &&& command_end(s, k + 1) == command_end(s, i)
            },
        }
    }
}

/// Reads `c`, the character at place `i`, with nothing pending: a character
/// that can start a longer token is held back, any other is written.
fn begin_token(s: &Vec<char>, i: usize, out: &mut Vec<char>) -> (state: PrintState)
    requires
        i < s.len(),
    ensures
        state.agrees(s@, i + 1),
        final(out)@ + escape_from(s@, state.token_start(i + 1)) == old(out)@ + escape_from(
            s@,
            i as int,
        ),
{
    let c = s[i];
    match c {
        '-' => PrintState::Dash,
        '`' => PrintState::Grave,
        '\'' => PrintState::Apostrofe,
        '\\' => PrintState::Command(i),
        _ => {
            out.push(c);
            assert(final(out)@ + escape_from(s@, i + 1) =~= old(out)@ + (seq![c] + escape_from(
                s@,
                i + 1,
            )));
            PrintState::Normal
        },
    }
}

/// Writes `first`, which stands for what `s` holds from `from` up to `i`, and
/// then reads the character at place `i` with nothing pending.
fn close_and_begin(
    s: &Vec<char>,
    Ghost(from): Ghost<int>,
    i: usize,
    first: char,
    out: &mut Vec<char>,
) -> (state: PrintState)
    requires
        i < s.len(),
        0 <= from <= i,
        escape_from(s@, from) == seq![first] + escape_from(s@, i as int),
    ensures
        state.agrees(s@, i + 1),
        final(out)@ + escape_from(s@, state.token_start(i + 1)) == old(out)@ + escape_from(
            s@,
            from,
        ),
{
    out.push(first);
    let ghost mid = out@;
    let state = begin_token(s, i, out);
    assert(old(out)@ + (seq![first] + escape_from(s@, i as int)) =~= mid + escape_from(
        s@,
        i as int,
    ));
    state
}

/// The escaped form of `s`, written in one pass from left to right.
pub fn escape_chars(s: &Vec<char>) -> (out: Vec<char>)
    ensures
        out@ == escape(s@),
{
    let mut out: Vec<char> = Vec::new();
    let mut state = PrintState::Normal;
    let mut i: usize = 0;
    while i < s.len()
        invariant
            i <= s.len(),
            state.agrees(s@, i as int),
            escape(s@) == out@ + escape_from(s@, state.token_start(i as int)),
        decreases s.len() - i,
    {
        let c = s[i];
        let ghost k = state.token_start(i as int);
        let ghost before = out@;
        state = match state {
            PrintState::Normal => begin_token(s, i, &mut out),
            PrintState::Dash => {
                if c == '-' {
                    PrintState::EnDash
                } else {
                    close_and_begin(s, Ghost(k), i, '-', &mut out)
                }
            },
            PrintState::EnDash => {
                if c == '-' {
                    out.push('—');
                    assert(out@ + escape_from(s@, i + 1) =~= before + (seq!['—'] + escape_from(
                        s@,
                        i + 1,
                    )));
                    PrintState::Normal
                } else {
                    close_and_begin(s, Ghost(k), i, '–', &mut out)
                }
            },
            PrintState::Grave => {
                if c == '`' {
                    out.push('“');
                    assert(out@ + escape_from(s@, i + 1) =~= before + (seq!['“'] + escape_from(
                        s@,
                        i + 1,
                    )));
                    PrintState::Normal
                } else {
                    close_and_begin(s, Ghost(k), i, '‘', &mut out)
                }
            },
            PrintState::Apostrofe => {
                if c == '\'' {
                    out.push('”');
                    assert(out@ + escape_from(s@, i + 1) =~= before + (seq!['”'] + escape_from(
                        s@,
                        i + 1,
                    )));
                    PrintState::Normal
                } else {
                    close_and_begin(s, Ghost(k), i, '’', &mut out)
                }
            },
            PrintState::Command(start) => {
                if c == ' ' {
                    let cmd = Command::from_span(s, start, i);
                    if let Some(cmd) = cmd {
                        out.push(cmd.symbol());
                        out.push(' ');
                        assert(out@ + escape_from(s@, i + 1) =~= before + (seq![
                            cmd.symbol_spec(),
                            ' ',
                        ] + escape_from(s@, i + 1)));
                    } else {
                        assert(out@ + escape_from(s@, i + 1) =~= before + (Seq::<char>::empty()
                            + escape_from(s@, i + 1)));
                    }
                    PrintState::Normal
                } else if c == '\\' {
                    if start == i - 1 {
                        out.push('\\');
                        assert(out@ + escape_from(s@, i + 1) =~= before + (seq!['\\']
                            + escape_from(s@, i + 1)));
                        PrintState::Normal
                    } else {
                        let cmd = Command::from_span(s, start, i);
                        if let Some(cmd) = cmd {
                            out.push(cmd.symbol());
                        }
                        assert(out@ + escape_from(s@, i as int) =~= before + (command_text(
                            s@.subrange(start as int, i as int),
                        ) + escape_from(s@, i as int)));
                        PrintState::Command(i)
                    }
                } else {
                    PrintState::Command(start)
                }
            },
        };
        i += 1;
    }
    let ghost before = out@;
    let ghost n = s@.len() as int;
    let ghost k = state.token_start(n);
    assert(escape_from(s@, n) =~= Seq::<char>::empty());
    match state {
        PrintState::Normal => {},
        PrintState::Dash => {
            out.push('-');
            assert(out@ =~= before + (seq!['-'] + escape_from(s@, n)));
        },
        PrintState::EnDash => {
            out.push('–');
            assert(out@ =~= before + (seq!['–'] + escape_from(s@, n)));
        },
        PrintState::Grave => {
            out.push('‘');
            assert(out@ =~= before + (seq!['‘'] + escape_from(s@, n)));
        },
        PrintState::Apostrofe => {
            out.push('’');
            assert(out@ =~= before + (seq!['’'] + escape_from(s@, n)));
        },
        PrintState::Command(start) => {
            if let Some(cmd) = Command::from_span(s, start, s.len()) {
                out.push(cmd.symbol());
            }
            assert(out@ =~= before + (command_text(s@.subrange(k, n)) + escape_from(s@, n)));
        },
    }
    assert(out@ =~= escape(s@));
    out
}

impl<'s> Text<'s> {
    /// The text with its markup typeset.
    pub fn to_string(&self) -> (out: String)
        ensures
            out@ == escape(self.0@),
    {
        let chars = chars_of(self.0);
        let out = escape_chars(&chars);
        string_of(&out)
    }
}

/// The brace depth after one more character `d`, for a matcher that looks for
/// `target`. The depth is counted in a `u8` and stays at its ends.
pub open spec fn depth_step(target: char, depth: int, d: char) -> int {
    if d == target {
        depth
    } else if d == '{' {
        if depth < 255 {
            depth + 1
        } else {
            depth
        }
    } else if d == '}' {
        if depth > 0 {
            depth - 1
        } else {
            depth
        }
    } else {
        depth
    }
}

/// The brace depth after the characters of `s`, read from the left.
pub open spec fn depth_after(target: char, s: Seq<char>) -> int
    decreases s.len(),
{
    if s.len() == 0 {
        0
    } else {
        depth_step(target, depth_after(target, s.drop_last()), s.last())
    }
}

/// Place `i` of `s` holds `target` outside every pair of braces.
pub open spec fn is_free_at(target: char, s: Seq<char>, i: int) -> bool {
    0 <= i < s.len() && s[i] == target && depth_after(target, s.take(i)) == 0
}

/// The first place of `s` at or after `i` that holds `target` outside braces,
/// or the length of `s` where there is none.
pub open spec fn first_free(target: char, s: Seq<char>, i: int) -> int
    decreases s.len() - i,
{
    if i < 0 || i >= s.len() {
        s.len() as int
    } else if is_free_at(target, s, i) {
        i
    } else {
        first_free(target, s, i + 1)
    }
}

pub proof fn lemma_first_free_bounds(target: char, s: Seq<char>, i: int)
    requires
        0 <= i <= s.len(),
    ensures
        i <= first_free(target, s, i) <= s.len(),
    decreases s.len() - i,
{
    if i < s.len() && !is_free_at(target, s, i) {
        lemma_first_free_bounds(target, s, i + 1);
    }
}

/// The last place of `s` before `n` that holds `target` outside braces, or -1
/// where there is none.
pub open spec fn last_free(target: char, s: Seq<char>, n: int) -> int
    decreases n,
{
    if n <= 0 {
        -1
    } else if is_free_at(target, s, n - 1) {
        n - 1
    } else {
        last_free(target, s, n - 1)
    }
}

/// A matcher for one character outside braces. It is fed the characters of a
/// text from left to right and keeps the brace depth between them.
pub struct FreeCharMatcher {
    target: char,
    depth: u8,
}

impl FreeCharMatcher {
    /// The character that is looked for.
    pub closed spec fn target(&self) -> char {
        self.target
    }

    /// The brace depth reached so far.
    pub closed spec fn depth(&self) -> int {
        self.depth as int
    }

    /// Feeds the next character: true where it is the target at depth zero.
    pub fn matches(&mut self, d: char) -> (hit: bool)
        ensures
            final(self).target() == old(self).target(),
            final(self).depth() == depth_step(old(self).target(), old(self).depth(), d),
            hit == (d == old(self).target() && old(self).depth() == 0),
    {
        if d == self.target {
            self.depth == 0
        } else if d == '{' {
            if self.depth < 255 {
                self.depth = self.depth + 1;
            }
            false
        } else if d == '}' {
            if self.depth > 0 {
                self.depth = self.depth - 1;
            }
            false
        } else {
            false
        }
    }
}

/// A matcher for `c` outside braces, at depth zero.
pub fn match_free_char(c: char) -> (m: FreeCharMatcher)
    ensures
        m.target() == c,
        m.depth() == 0,
{
    FreeCharMatcher { target: c, depth: 0 }
}

/// The first place of `s` that holds `c` outside braces.
pub fn find_free(s: &Vec<char>, c: char) -> (at: Option<usize>)
    ensures
        match at {
            Some(i) => i < s@.len() && i == first_free(c, s@, 0) && s@[i as int] == c,
            None => first_free(c, s@, 0) == s@.len(),
        },
{
    proof {
        lemma_first_free_bounds(c, s@, 0);
    }
    let mut m = match_free_char(c);
    let mut i: usize = 0;
    assert(s@.take(0) =~= Seq::<char>::empty());
    while i < s.len()
        invariant
            i <= s.len(),
            m.target() == c,
            m.depth() == depth_after(c, s@.take(i as int)),
            first_free(c, s@, 0) == first_free(c, s@, i as int),
        decreases s.len() - i,
    {
        let hit = m.matches(s[i]);
        if hit {
            return Some(i);
        }
        assert(s@.take(i + 1).drop_last() =~= s@.take(i as int));
        i += 1;
    }
    None
}

/// The last place of `s` that holds `c` outside braces.
pub fn rfind_free(s: &Vec<char>, c: char) -> (at: Option<usize>)
    ensures
        match at {
            Some(i) => i < s@.len() && i == last_free(c, s@, s@.len() as int) && s@[i as int]
                == c,
            None => last_free(c, s@, s@.len() as int) == -1,
        },
{
    let mut m = match_free_char(c);
    let mut at: Option<usize> = None;
    let mut i: usize = 0;
    assert(s@.take(0) =~= Seq::<char>::empty());
    while i < s.len()
        invariant
            i <= s.len(),
            m.target() == c,
            m.depth() == depth_after(c, s@.take(i as int)),
            -1 <= last_free(c, s@, i as int) < i,
            last_free(c, s@, i as int) >= 0 ==> at == Some(last_free(c, s@, i as int) as usize),
            last_free(c, s@, i as int) < 0 ==> at.is_none(),
            at matches Some(k) ==> k < i && s@[k as int] == c,
        decreases s.len() - i,
    {
        let hit = m.matches(s[i]);
        if hit {
            at = Some(i);
        }
        assert(s@.take(i + 1).drop_last() =~= s@.take(i as int));
        i += 1;
    }
    at
}

/// `c` is one of the characters that the escaper rewrites.
pub open spec fn is_markup(c: char) -> bool {
    c == '-' || c == '`' || c == '\'' || c == '\\'
}

/// `s` holds none of the characters that the escaper rewrites.
pub open spec fn is_plain(s: Seq<char>) -> bool {
    forall|i: int| 0 <= i < s.len() ==> !is_markup(#[trigger] s[i])
}

/// `s` holds no backslash, no back-tick and no hyphen.
pub open spec fn is_raw_free(s: Seq<char>) -> bool {
    forall|i: int|
        0 <= i < s.len() ==> (#[trigger] s[i]) != '\\' && s[i] != '`' && s[i] != '-'
}

/// A text without markup is left as it is.
pub proof fn lemma_escape_plain(s: Seq<char>, i: int)
    requires
        is_plain(s),
        0 <= i <= s.len(),
    ensures
        escape_from(s, i) == s.skip(i),
    decreases s.len() - i,
{
    if i < s.len() {
        lemma_escape_plain(s, i + 1);
        assert(!is_markup(s[i]));
        assert(seq![s[i]] + s.skip(i + 1) =~= s.skip(i));
    } else {
        assert(s.skip(i) =~= Seq::<char>::empty());
    }
}

/// Of a text without backslashes, back-ticks and hyphens the escaped form
/// holds no markup at all.
pub proof fn lemma_escape_leaves_plain(s: Seq<char>, i: int)
    requires
        is_raw_free(s),
        0 <= i <= s.len(),
    ensures
        is_plain(escape_from(s, i)),
    decreases s.len() - i,
{
    if i < s.len() {
        assert(s[i] != '\\' && s[i] != '`' && s[i] != '-');
        if s[i] == '\'' && i + 1 < s.len() && s[i + 1] == '\'' {
            lemma_escape_leaves_plain(s, i + 2);
            let rest = escape_from(s, i + 2);
            assert(escape_from(s, i) == seq!['”'] + rest);
            assert forall|k: int| 0 <= k < escape_from(s, i).len() implies !is_markup(
                #[trigger] escape_from(s, i)[k],
            ) by {
                if k > 0 {
                    assert(escape_from(s, i)[k] == rest[k - 1]);
                }
            }
        } else {
            lemma_escape_leaves_plain(s, i + 1);
            let rest = escape_from(s, i + 1);
            let first = if s[i] == '\'' {
                '’'
            } else {
                s[i]
            };
            assert(escape_from(s, i) == seq![first] + rest);
            assert forall|k: int| 0 <= k < escape_from(s, i).len() implies !is_markup(
                #[trigger] escape_from(s, i)[k],
            ) by {
                if k > 0 {
                    assert(escape_from(s, i)[k] == rest[k - 1]);
                }
            }
        }
    }
}

/// Escaping twice is escaping once, for every text without backslashes,
/// back-ticks and hyphens: what the escaper has written it leaves as it is.
pub proof fn lemma_escape_idempotent(s: Seq<char>)
    requires
        is_raw_free(s),
    ensures
        escape(escape(s)) == escape(s),
{
    lemma_escape_leaves_plain(s, 0);
    lemma_escape_plain(escape(s), 0);
    assert(escape(s).skip(0) =~= escape(s));
}

/// `s` holds no backslash.
pub open spec fn is_command_free(s: Seq<char>) -> bool {
    forall|i: int| 0 <= i < s.len() ==> (#[trigger] s[i]) != '\\'
}

/// `s` holds nothing that the escaper would rewrite: no backslash, no
/// back-tick, no apostrophe, and no two hyphens in a row.
pub open spec fn is_settled(s: Seq<char>) -> bool {
    &&& forall|i: int|
        0 <= i < s.len() ==> (#[trigger] s[i]) != '\\' && s[i] != '`' && s[i] != '\''
    &&& forall|i: int| 0 <= i < s.len() - 1 ==> !((#[trigger] s[i]) == '-' && s[i + 1] == '-')
}

/// A settled text is left as it is.
pub proof fn lemma_escape_settled(s: Seq<char>, i: int)
    requires
        is_settled(s),
        0 <= i <= s.len(),
    ensures
        escape_from(s, i) == s.skip(i),
    decreases s.len() - i,
{
    if i < s.len() {
        lemma_escape_settled(s, i + 1);
        assert(s[i] != '\\' && s[i] != '`' && s[i] != '\'');
        if s[i] == '-' && i + 1 < s.len() {
            assert(!(s[i] == '-' && s[i + 1] == '-'));
        }
        assert(seq![s[i]] + s.skip(i + 1) =~= s.skip(i));
    } else {
        assert(s.skip(i) =~= Seq::<char>::empty());
    }
}

/// Of a text without backslashes the escaped form is settled, and it begins
/// with a hyphen only where the text does.
pub proof fn lemma_escape_settles(s: Seq<char>, i: int)
    requires
        is_command_free(s),
        0 <= i <= s.len(),
    ensures
        is_settled(escape_from(s, i)),
        escape_from(s, i).len() > 0 && escape_from(s, i)[0] == '-' ==> i < s.len() && s[i]
            == '-',
    decreases s.len() - i,
{
    if i < s.len() {
        assert(s[i] != '\\');
        let next = if s[i] == '-' {
            if i + 2 < s.len() && s[i + 1] == '-' && s[i + 2] == '-' {
                i + 3
            } else if i + 1 < s.len() && s[i + 1] == '-' {
                i + 2
            } else {
                i + 1
            }
        } else if s[i] == '`' {
            if i + 1 < s.len() && s[i + 1] == '`' {
                i + 2
            } else {
                i + 1
            }
        } else if s[i] == '\'' {
            if i + 1 < s.len() && s[i + 1] == '\'' {
                i + 2
            } else {
                i + 1
            }
        } else {
            i + 1
        };
        lemma_escape_settles(s, next);
        let e = escape_from(s, i);
        let rest = escape_from(s, next);
        assert(e.len() == rest.len() + 1);
        assert(forall|k: int| 0 < k < e.len() ==> e[k] == rest[k - 1]);
        assert(e[0] != '\\' && e[0] != '`' && e[0] != '\'');
        assert forall|k: int| 0 <= k < e.len() implies (#[trigger] e[k]) != '\\' && e[k] != '`'
            && e[k] != '\'' by {
            if k > 0 {
                assert(e[k] == rest[k - 1]);
            }
        }
        assert forall|k: int| 0 <= k < e.len() - 1 implies !((#[trigger] e[k]) == '-' && e[k + 1]
            == '-') by {
            if k > 0 {
                assert(e[k] == rest[k - 1]);
                assert(e[k + 1] == rest[k]);
            } else {
                assert(e[1] == rest[0]);
            }
        }
    }
}

/// Escaping twice is escaping once, for every text without backslashes.
pub proof fn lemma_escape_idempotent_without_commands(s: Seq<char>)
    requires
        is_command_free(s),
    ensures
        escape(escape(s)) == escape(s),
{
    lemma_escape_settles(s, 0);
    lemma_escape_settled(escape(s), 0);
    assert(escape(s).skip(0) =~= escape(s));
}

} // verus!
