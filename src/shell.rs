use vstd::prelude::*;
use vstd::string::StrSliceExecFns;

verus! {

/// Number of commands the history keeps.
pub const MAX_HISTORY: usize = 100;

/// State of a background job.
#[derive(Clone, Copy, Debug, PartialEq, Eq, Structural)]
pub enum JobState {
    Running,
    Stopped,
    Done,
}

/// A background job.
pub struct Job {
    pub id: usize,
    pub pid: Option<u32>,
    pub command: String,
    pub state: JobState,
}

/// Relies on `String::push`: appends one character.
#[verifier::external_body]
fn push_char(s: &mut String, c: char)
    ensures
        final(s)@ == old(s)@.push(c),
{
    s.push(c);
}

/// The characters of `s`, as a string.
fn string_of(chars: &Vec<char>) -> (r: String)
    ensures
        r@ == chars@,
{
    let mut s = String::new();
    let mut i: usize = 0;
    while i < chars.len()
        invariant
            i <= chars@.len(),
            s@ == chars@.take(i as int),
        decreases chars@.len() - i,
    {
        push_char(&mut s, chars[i]);
        assert(chars@.take(i + 1) == chars@.take(i as int).push(chars@[i as int]));
        i = i + 1;
    }
    assert(chars@.take(chars@.len() as int) == chars@);
    s
}

/// The characters of `s`.
fn chars_of(s: &str) -> (r: Vec<char>)
    ensures
        r@ == s@,
{
    let n = s.unicode_len();
    let mut out: Vec<char> = Vec::new();
    let mut i: usize = 0;
    while i < n
        invariant
            n == s@.len(),
            i <= n,
            out@ == s@.take(i as int),
        decreases n - i,
    {
        out.push(s.get_char(i));
        assert(s@.take(i + 1) == s@.take(i as int).push(s@[i as int]));
        i = i + 1;
    }
    assert(s@.take(n as int) == s@);
    out
}

/// The variables that a list of (name, value) pairs defines; a later pair
/// overrides an earlier one of the same name.
pub open spec fn env_map(e: Seq<(String, String)>) -> Map<Seq<char>, Seq<char>>
    decreases e.len(),
{
    if e.len() == 0 {
        Map::empty()
    } else {
        env_map(e.drop_last()).insert(e.last().0@, e.last().1@)
    }
}

proof fn lemma_env_last_match(e: Seq<(String, String)>, i: int, k: Seq<char>)
    requires
        0 <= i < e.len(),
        e[i].0@ == k,
        forall|j: int| i < j < e.len() ==> (#[trigger] e[j]).0@ != k,
    ensures
        env_map(e).contains_key(k),
        env_map(e)[k] == e[i].1@,
    decreases e.len(),
{
    if i < e.len() - 1 {
        lemma_env_last_match(e.drop_last(), i, k);
        assert(e[e.len() - 1].0@ != k);
    }
}

proof fn lemma_env_absent(e: Seq<(String, String)>, k: Seq<char>)
    requires
        forall|j: int| 0 <= j < e.len() ==> (#[trigger] e[j]).0@ != k,
    ensures
        !env_map(e).contains_key(k),
    decreases e.len(),
{
    if e.len() > 0 {
        lemma_env_absent(e.drop_last(), k);
        assert(e[e.len() - 1].0@ != k);
    }
}

/// The shell's environment variables.
pub struct EnvironmentVariables {
    vars: Vec<(String, String)>,
}

impl EnvironmentVariables {
    /// Variable name to value.
    pub closed spec fn view(&self) -> Map<Seq<char>, Seq<char>> {
        env_map(self.vars@)
    }

    /// The standard variables: `PATH`, `HOME`, `USER`, `SHELL`, `TERM` and
    /// `LANG`.
    pub fn new() -> (r: EnvironmentVariables)
        ensures
            r@ == EnvironmentVariables::new_spec(),
    {
        let mut env = EnvironmentVariables { vars: Vec::new() };
        assert(env@ == Map::<Seq<char>, Seq<char>>::empty());
        env.set("PATH".to_owned(), "/bin:/usr/bin".to_owned());
        env.set("HOME".to_owned(), "/home/user".to_owned());
        env.set("USER".to_owned(), "user".to_owned());
        env.set("SHELL".to_owned(), "/bin/shell".to_owned());
        env.set("TERM".to_owned(), "xterm-256color".to_owned());
        env.set("LANG".to_owned(), "en_US.UTF-8".to_owned());
        env
    }

    /// The value of variable `key`, if set.
    pub fn get(&self, key: &str) -> (r: Option<&String>)
        ensures
            r.is_some() == self@.contains_key(key@),
            r matches Some(v) ==> v@ == self@[key@],
    {
        let k = key.to_owned();
        let mut i: usize = self.vars.len();
        while i > 0
            invariant
                i <= self.vars@.len(),
                k@ == key@,
                forall|j: int| i <= j < self.vars@.len() ==> (#[trigger] self.vars@[j]).0@ != k@,
            decreases i,
        {
            i = i - 1;
            if self.vars[i].0 == k {
                proof {
                    lemma_env_last_match(self.vars@, i as int, k@);
                }
                return Some(&self.vars[i].1);
            }
        }
        proof {
            lemma_env_absent(self.vars@, k@);
        }
        None
    }

    /// The pairs of `vars` whose name is not `key`, in order.
    fn without(vars: &Vec<(String, String)>, key: &String) -> (r: Vec<(String, String)>)
        ensures
            env_map(r@) == env_map(vars@).remove(key@),
    {
        let mut out: Vec<(String, String)> = Vec::new();
        let mut i: usize = 0;
        while i < vars.len()
            invariant
                i <= vars@.len(),
                env_map(out@) == env_map(vars@.take(i as int)).remove(key@),
            decreases vars@.len() - i,
        {
            let ghost pre = vars@.take(i as int);
            assert(vars@.take(i + 1).drop_last() == pre);
            if vars[i].0 != *key {
                let name = vars[i].0.clone();
                let value = vars[i].1.clone();
                let ghost old_out = out@;
                out.push((name, value));
                assert(out@.drop_last() == old_out);
                assert(env_map(out@) =~= env_map(vars@.take(i + 1)).remove(key@));
            } else {
                assert(env_map(out@) =~= env_map(vars@.take(i + 1)).remove(key@));
            }
            i = i + 1;
        }
        assert(vars@.take(vars@.len() as int) == vars@);
        out
    }

    /// Sets variable `key` to `value`.
    pub fn set(&mut self, key: String, value: String)
        ensures
            final(self)@ == old(self)@.insert(key@, value@),
    {
        let mut rest = EnvironmentVariables::without(&self.vars, &key);
        let ghost before = rest@;
        rest.push((key, value));
        assert(rest@.drop_last() == before);
        assert(env_map(rest@) =~= old(self)@.insert(key@, value@));
        self.vars = rest;
    }

    /// Removes variable `key`.
    pub fn unset(&mut self, key: &str)
        ensures
            final(self)@ == old(self)@.remove(key@),
    {
        let k = key.to_owned();
        self.vars = EnvironmentVariables::without(&self.vars, &k);
    }
}

/// Where history browsing lands from position `pos` (-1: not browsing) of
/// a history of `len` commands, moving by `delta`: up (`delta < 0`) from
/// the edited line starts at the newest command.
pub open spec fn browse_target(len: int, pos: int, delta: int) -> int {
    if pos == -1 {
        len - 1
    } else {
        pos + delta
    }
}

/// The cursor position `cursor + delta`, held within `0..=len`.
pub open spec fn clamp_cursor(cursor: int, delta: int, len: int) -> int {
    if cursor + delta < 0 {
        0
    } else if cursor + delta > len {
        len
    } else {
        cursor + delta
    }
}

/// Scans the body of a bracket class of pattern `p` from index `j`,
/// deciding whether `c` is a member: a plain character names itself; after
/// a member, `-x` adds the characters whose codes lie above the last
/// member's low byte up to `x`'s low byte (codes below 256), and `x`
/// becomes the last member when that range is not empty. `last` is the
/// code of the last member. Returns whether `c` matched and the index just
/// past the closing `]`, or nothing when the class is not closed.
pub open spec fn class_scan(p: Seq<char>, j: int, last: Option<u32>, c: char, matched: bool) -> Option<
    (bool, int),
>
    decreases p.len() - j,
{
    if j < 0 || j >= p.len() {
        None
    } else if p[j] == ']' {
        Some((matched, j + 1))
    } else if p[j] == '-' && last is Some {
        if j + 1 < p.len() {
            let s = last->0 % 256;
            let e = (p[j + 1] as u32) % 256;
            let hit = (c as u32) < 256 && s < (c as u32) <= e;
            let next_last = if s < e {
                Some(e)
            } else {
                last
            };
            class_scan(p, j + 2, next_last, c, matched || hit)
        } else {
            class_scan(p, j + 1, last, c, matched)
        }
    } else {
        class_scan(p, j + 1, Some(p[j] as u32), c, matched || p[j] == c)
    }
}

/// A closed class ends after where its scan starts, within the pattern.
pub proof fn lemma_class_scan_end(p: Seq<char>, j: int, last: Option<u32>, c: char, matched: bool)
    requires
        0 <= j,
    ensures
        class_scan(p, j, last, c, matched) matches Some(r) ==> j < r.1 <= p.len(),
    decreases p.len() - j,
{
    if 0 <= j < p.len() && p[j] != ']' {
        if p[j] == '-' && last is Some {
            if j + 1 < p.len() {
                let s = last->0 % 256;
                let e = (p[j + 1] as u32) % 256;
                let next_last = if s < e {
                    Some(e)
                } else {
                    last
                };
                let hit = (c as u32) < 256 && s < (c as u32) <= e;
                lemma_class_scan_end(p, j + 2, next_last, c, matched || hit);
            } else {
                lemma_class_scan_end(p, j + 1, last, c, matched);
            }
        } else {
            lemma_class_scan_end(p, j + 1, Some(p[j] as u32), c, matched || p[j] == c);
        }
    }
}

/// Whether text `t` matches glob pattern `p` from pattern index `i`: `*`
/// matches any run of characters, `?` any one character, `[...]` one
/// character of a class (`[!...]` or `[^...]` one outside it), and any
/// other character itself. An unclosed class matches nothing.
pub open spec fn glob_from(p: Seq<char>, i: int, t: Seq<char>) -> bool
    decreases p.len() - i, t.len(),
{
    if i < 0 || i >= p.len() {
        t.len() == 0
    } else if p[i] == '*' {
        glob_from(p, i + 1, t) || (t.len() > 0 && glob_from(p, i, t.drop_first()))
    } else if p[i] == '?' {
        t.len() > 0 && glob_from(p, i + 1, t.drop_first())
    } else if p[i] == '[' {
        let negated = i + 1 < p.len() && (p[i + 1] == '!' || p[i + 1] == '^');
        let start = if negated {
            i + 2
        } else {
            i + 1
        };
        if t.len() == 0 {
            false
        } else {
            match class_scan(p, start, None, t[0], false) {
                None => false,
                Some(r) => {
                    proof {
                        lemma_class_scan_end(p, start, None, t[0], false);
                    }
                    r.0 != negated && glob_from(p, r.1, t.drop_first())
                },
            }
        }
    } else {
        t.len() > 0 && t[0] == p[i] && glob_from(p, i + 1, t.drop_first())
    }
}

/// Decides `class_scan` for `c`.
fn scan_class(p: &Vec<char>, j: usize, c: char) -> (r: Option<(bool, usize)>)
    ensures
        ({
            let spec_r = class_scan(p@, j as int, None, c, false);
            &&& r.is_none() == spec_r.is_none()
            &&& r matches Some(x) ==> spec_r == Some((x.0, x.1 as int))
        }),
{
    let mut k: usize = j;
    let mut last: Option<u32> = None;
    let mut matched = false;
    let code = c as u32;
    while k < p.len()
        invariant
            j <= k,
            class_scan(p@, j as int, None, c, false) == class_scan(p@, k as int, last, c, matched),
            code == c as u32,
        decreases p@.len() - k,
    {
        let x = p[k];
        if x == ']' {
            return Some((matched, k + 1));
        }
        if x == '-' && last.is_some() {
            if k + 1 < p.len() {
                let s = match last {
                    Some(v) => v % 256,
                    None => 0,
                };
                let e = (p[k + 1] as u32) % 256;
                let hit = code < 256 && s < code && code <= e;
                if s < e {
                    last = Some(e);
                }
                matched = matched || hit;
                k = k + 2;
            } else {
                k = k + 1;
            }
        } else {
            last = Some(x as u32);
            matched = matched || x == c;
            k = k + 1;
        }
    }
    None
}

/// Decides `glob_from(p, i, t.skip(ti))`.
fn glob_at(p: &Vec<char>, i: usize, t: &Vec<char>, ti: usize) -> (r: bool)
    requires
        ti <= t@.len(),
    ensures
        r == glob_from(p@, i as int, t@.skip(ti as int)),
    decreases p@.len() - i,
{
    let ghost rest = t@.skip(ti as int);
    if i >= p.len() {
        return ti == t.len();
    }
    let c = p[i];
    if c == '*' {
        let n = t.len();
        let mut k: usize = ti;
        while k <= n
            invariant
                n == t@.len(),
                ti <= k <= n,
                i < p@.len(),
                p@.len() <= usize::MAX,
                p@[i as int] == '*',
                rest == t@.skip(ti as int),
                glob_from(p@, i as int, rest) == glob_from(p@, i as int, t@.skip(k as int)),
            decreases n - k,
        {
            if glob_at(p, i + 1, t, k) {
                return true;
            }
            if k == n {
                assert(t@.skip(k as int).len() == 0);
                return false;
            }
            assert(t@.skip(k as int).drop_first() == t@.skip(k + 1));
            k = k + 1;
        }
        return false;
    }
    if ti == t.len() {
        return false;
    }
    assert(rest.drop_first() == t@.skip(ti + 1));
    if c == '?' {
        return glob_at(p, i + 1, t, ti + 1);
    }
    if c == '[' {
        let negated = i + 1 < p.len() && (p[i + 1] == '!' || p[i + 1] == '^');
        let start = if negated {
            i + 2
        } else {
            i + 1
        };
        match scan_class(p, start, t[ti]) {
            None => {
                return false;
            },
            Some((m, end)) => {
                proof {
                    lemma_class_scan_end(p@, start as int, None, t@[ti as int], false);
                }
                if m == negated {
                    return false;
                }
                return glob_at(p, end, t, ti + 1);
            },
        }
    }
    if t[ti] != c {
        return false;
    }
    glob_at(p, i + 1, t, ti + 1)
}

/// Home directory used when `HOME` is not set.
pub open spec fn default_home() -> Seq<char> {
    "/home/user"@
}

/// `path` with a leading `~` expanded to `home`, then made absolute
/// against the working directory `cwd`.
pub open spec fn resolved_path(home: Seq<char>, cwd: Seq<char>, path: Seq<char>) -> Seq<char> {
    let expanded = if path.len() >= 2 && path[0] == '~' && path[1] == '/' {
        home + path.skip(1)
    } else if path == seq!['~'] {
        home
    } else {
        path
    };
    if expanded.len() > 0 && expanded[0] == '/' {
        expanded
    } else if cwd == seq!['/'] {
        seq!['/'] + expanded
    } else {
        cwd + seq!['/'] + expanded
    }
}

/// Appends the characters of `tail` to `out`.
fn extend_chars(out: &mut Vec<char>, tail: &Vec<char>, from: usize)
    requires
        from <= tail@.len(),
    ensures
        final(out)@ == old(out)@ + tail@.skip(from as int),
{
    let mut i: usize = from;
    while i < tail.len()
        invariant
            from <= i <= tail@.len(),
            out@ == old(out)@ + tail@.subrange(from as int, i as int),
        decreases tail@.len() - i,
    {
        out.push(tail[i]);
        assert(tail@.subrange(from as int, i + 1) == tail@.subrange(from as int, i as int).push(
            tail@[i as int],
        ));
        i = i + 1;
    }
    assert(tail@.subrange(from as int, tail@.len() as int) == tail@.skip(from as int));
}

/// The built-in command names offered for completion, in order.
pub open spec fn command_names() -> Seq<Seq<char>> {
    seq![
        "alias"@,
        "bg"@,
        "cat"@,
        "cd"@,
        "clear/cls"@,
        "echo"@,
        "export"@,
        "fg"@,
        "help"@,
        "jobs"@,
        "ls"@,
        "mkdir"@,
        "ps"@,
        "pwd"@,
        "reboot"@,
        "rm"@,
        "source"@,
        "unalias"@,
        "unset"@,
    ]
}

/// The names of `names` that start with `prefix`, in order.
pub open spec fn names_with_prefix(names: Seq<Seq<char>>, prefix: Seq<char>) -> Seq<Seq<char>>
    decreases names.len(),
{
    if names.len() == 0 {
        Seq::empty()
    } else if prefix.is_prefix_of(names.last()) {
        names_with_prefix(names.drop_last(), prefix).push(names.last())
    } else {
        names_with_prefix(names.drop_last(), prefix)
    }
}

/// Whether `prefix` starts `word`.
fn starts_with(word: &Vec<char>, prefix: &Vec<char>) -> (r: bool)
    ensures
        r == prefix@.is_prefix_of(word@),
{
    if prefix.len() > word.len() {
        return false;
    }
    let mut i: usize = 0;
    while i < prefix.len()
        invariant
            prefix@.len() <= word@.len(),
            i <= prefix@.len(),
            forall|j: int| 0 <= j < i ==> prefix@[j] == word@[j],
        decreases prefix@.len() - i,
    {
        if prefix[i] != word[i] {
            return false;
        }
        i = i + 1;
    }
    assert(word@.subrange(0, prefix@.len() as int) =~= prefix@);
    true
}

/// The names given by the first `n` arguments.
pub open spec fn names_among(args: Seq<&str>, n: int) -> Set<Seq<char>> {
    Set::new(|k: Seq<char>| exists|j: int| 0 <= j < n && #[trigger] args[j]@ == k)
}

/// Why an arithmetic expression has no value.
#[derive(Clone, Copy, Debug, PartialEq, Eq, Structural)]
pub enum ArithmeticError {
    DivisionByZero,
    Overflow,
    InvalidExpression,
}

/// A Unicode white-space character, as `str::trim` removes them.
pub open spec fn is_white_space(c: char) -> bool {
    let v = c as u32;
    (9 <= v <= 13) || v == 32 || v == 0x85 || v == 0xA0 || v == 0x1680 || (0x2000 <= v <= 0x200A)
        || v == 0x2028 || v == 0x2029 || v == 0x202F || v == 0x205F || v == 0x3000
}

/// `s` without its leading white space.
pub open spec fn trim_start(s: Seq<char>) -> Seq<char>
    decreases s.len(),
{
    if s.len() > 0 && is_white_space(s[0]) {
        trim_start(s.drop_first())
    } else {
        s
    }
}

/// `s` without its trailing white space.
pub open spec fn trim_end(s: Seq<char>) -> Seq<char>
    decreases s.len(),
{
    if s.len() > 0 && is_white_space(s.last()) {
        trim_end(s.drop_last())
    } else {
        s
    }
}

/// `s` without leading or trailing white space.
pub open spec fn trimmed(s: Seq<char>) -> Seq<char> {
    trim_end(trim_start(s))
}

pub proof fn lemma_trimmed_len(s: Seq<char>)
    ensures
        trimmed(s).len() <= s.len(),
{
    lemma_trim_start_len(s);
    lemma_trim_end_len(trim_start(s));
}

proof fn lemma_trim_start_len(s: Seq<char>)
    ensures
        trim_start(s).len() <= s.len(),
    decreases s.len(),
{
    if s.len() > 0 && is_white_space(s[0]) {
        lemma_trim_start_len(s.drop_first());
    }
}

proof fn lemma_trim_end_len(s: Seq<char>)
    ensures
        trim_end(s).len() <= s.len(),
    decreases s.len(),
{
    if s.len() > 0 && is_white_space(s.last()) {
        lemma_trim_end_len(s.drop_last());
    }
}

/// An ASCII decimal digit.
pub open spec fn is_digit(c: char) -> bool {
    48 <= (c as u32) <= 57
}

/// The value of a string of decimal digits.
pub open spec fn digits_value(d: Seq<char>) -> int
    decreases d.len(),
{
    if d.len() == 0 {
        0
    } else {
        digits_value(d.drop_last()) * 10 + ((d.last() as u32) - 48)
    }
}

/// Every character of `d` is a decimal digit.
pub open spec fn all_digits(d: Seq<char>) -> bool {
    forall|k: int| 0 <= k < d.len() ==> is_digit(#[trigger] d[k])
}

/// What `i64`'s `from_str` gives: an optional sign and at least one
/// decimal digit, of a value that fits.
pub open spec fn parse_i64(s: Seq<char>) -> Option<i64> {
    let negative = s.len() > 0 && s[0] == '-';
    let body = if s.len() > 0 && (s[0] == '-' || s[0] == '+') {
        s.drop_first()
    } else {
        s
    };
    let v = if negative {
        -digits_value(body)
    } else {
        digits_value(body)
    };
    if body.len() == 0 || !all_digits(body) {
        None
    } else if i64::MIN <= v <= i64::MAX {
        Some(v as i64)
    } else {
        None
    }
}

/// The first index from `i` on (before the end) holding one of the
/// additive operators (`additive`) or of `*`, `/`, `%` (otherwise).
pub open spec fn find_operator(e: Seq<char>, i: int, additive: bool) -> Option<int>
    decreases e.len() - i,
{
    if i < 0 || i >= e.len() {
        None
    } else if (additive && (e[i] == '+' || e[i] == '-')) || (!additive && (e[i] == '*' || e[i]
        == '/' || e[i] == '%')) {
        Some(i)
    } else {
        find_operator(e, i + 1, additive)
    }
}

pub proof fn lemma_find_operator_range(e: Seq<char>, i: int, additive: bool)
    requires
        0 <= i,
    ensures
        find_operator(e, i, additive) matches Some(k) ==> i <= k < e.len(),
    decreases e.len() - i,
{
    if 0 <= i < e.len() {
        lemma_find_operator_range(e, i + 1, additive);
    }
}

/// Combines two values by operator `op`, failing on overflow and on a zero
/// divisor; division and remainder truncate toward zero.
pub open spec fn apply_operator(op: char, a: i64, b: i64) -> Result<i64, ArithmeticError> {
    if op == '+' {
        match a.checked_add(b) {
            Some(v) => Ok(v),
            None => Err(ArithmeticError::Overflow),
        }
    } else if op == '-' {
        match a.checked_sub(b) {
            Some(v) => Ok(v),
            None => Err(ArithmeticError::Overflow),
        }
    } else if op == '*' {
        match a.checked_mul(b) {
            Some(v) => Ok(v),
            None => Err(ArithmeticError::Overflow),
        }
    } else if b == 0 {
        Err(ArithmeticError::DivisionByZero)
    } else {
        match a.checked_div(b) {
            None => Err(ArithmeticError::Overflow),
            Some(q) => if op == '/' {
                Ok(q)
            } else {
                match q.checked_mul(b) {
                    None => Err(ArithmeticError::Overflow),
                    Some(m) => match a.checked_sub(m) {
                        Some(v) => Ok(v),
                        None => Err(ArithmeticError::Overflow),
                    },
                }
            },
        }
    }
}

/// The value of an arithmetic expression: after trimming, a number; else
/// split at the first `+` or `-` past the first character, else at the
/// first `*`, `/` or `%` past the first character, and combine the values
/// of the two sides (left first).
pub open spec fn arithmetic_value(s: Seq<char>) -> Result<i64, ArithmeticError>
    decreases s.len(),
{
    let e = trimmed(s);
    proof {
        lemma_trimmed_len(s);
        lemma_find_operator_range(e, 1, true);
        lemma_find_operator_range(e, 1, false);
    }
    match parse_i64(e) {
        Some(v) => Ok(v),
        None => {
            let split = match find_operator(e, 1, true) {
                Some(i) => Some(i),
                None => find_operator(e, 1, false),
            };
            match split {
                None => Err(ArithmeticError::InvalidExpression),
                Some(i) => match arithmetic_value(e.take(i)) {
                    Err(x) => Err(x),
                    Ok(a) => match arithmetic_value(e.skip(i + 1)) {
                        Err(x) => Err(x),
                        Ok(b) => apply_operator(e[i], a, b),
                    },
                },
            }
        },
    }
}

fn white_space(c: char) -> (r: bool)
    ensures
        r == is_white_space(c),
{
    let v = c as u32;
    (9 <= v && v <= 13) || v == 32 || v == 0x85 || v == 0xA0 || v == 0x1680 || (0x2000 <= v && v
        <= 0x200A) || v == 0x2028 || v == 0x2029 || v == 0x202F || v == 0x205F || v == 0x3000
}

/// The characters of `s` from `from` to `to`.
fn sub_chars(s: &Vec<char>, from: usize, to: usize) -> (r: Vec<char>)
    requires
        from <= to <= s@.len(),
    ensures
        r@ == s@.subrange(from as int, to as int),
{
    let mut out: Vec<char> = Vec::new();
    let mut k: usize = from;
    while k < to
        invariant
            from <= k <= to,
            to <= s@.len(),
            out@ == s@.subrange(from as int, k as int),
        decreases to - k,
    {
        out.push(s[k]);
        assert(s@.subrange(from as int, k + 1) == s@.subrange(from as int, k as int).push(
            s@[k as int],
        ));
        k = k + 1;
    }
    out
}

fn trim_chars(s: &Vec<char>) -> (r: Vec<char>)
    ensures
        r@ == trimmed(s@),
{
    let n = s.len();
    let mut a: usize = 0;
    assert(s@.skip(0) == s@);
    while a < n && white_space(s[a])
        invariant
            a <= n,
            n == s@.len(),
            trim_start(s@) == trim_start(s@.skip(a as int)),
        decreases n - a,
    {
        assert(s@.skip(a as int).drop_first() == s@.skip(a + 1));
        a = a + 1;
    }
    assert(trim_start(s@) == s@.skip(a as int));
    let mut b: usize = n;
    while b > a && white_space(s[b - 1])
        invariant
            a <= b <= n,
            n == s@.len(),
            trimmed(s@) == trim_end(s@.subrange(a as int, b as int)),
        decreases b,
    {
        assert(s@.subrange(a as int, b as int).drop_last() == s@.subrange(a as int, b - 1));
        b = b - 1;
    }
    assert(s@.skip(a as int) == s@.subrange(a as int, n as int));
    sub_chars(s, a, b)
}

proof fn lemma_digits_prefix(d: Seq<char>, m: int)
    requires
        0 <= m <= d.len(),
        forall|k: int| 0 <= k < d.len() ==> is_digit(#[trigger] d[k]),
    ensures
        0 <= digits_value(d.take(m)) <= digits_value(d),
    decreases d.len(),
{
    if m == d.len() {
        assert(d.take(m) == d);
        lemma_digits_nonneg(d);
    } else {
        let t = d.drop_last();
        assert(t.take(m) == d.take(m));
        lemma_digits_prefix(t, m);
        lemma_digits_nonneg(t);
    }
}

proof fn lemma_digits_nonneg(d: Seq<char>)
    requires
        forall|k: int| 0 <= k < d.len() ==> is_digit(#[trigger] d[k]),
    ensures
        0 <= digits_value(d),
    decreases d.len(),
{
    if d.len() > 0 {
        lemma_digits_nonneg(d.drop_last());
    }
}

fn parse_chars(s: &Vec<char>) -> (r: Option<i64>)
    ensures
        r == parse_i64(s@),
{
    let n = s.len();
    if n == 0 {
        return None;
    }
    let negative = s[0] == '-';
    let start: usize = if s[0] == '-' || s[0] == '+' {
        1
    } else {
        0
    };
    let ghost body = if s@[0] == '-' || s@[0] == '+' {
        s@.drop_first()
    } else {
        s@
    };
    assert(body == s@.skip(start as int));
    if start == n {
        return None;
    }
    let mut v: i64 = 0;
    let mut k: usize = start;
    while k < n
        invariant
            start <= k <= n,
            n == s@.len(),
            start == 0 || start == 1,
            start == 1 <==> (s@[0] == '-' || s@[0] == '+'),
            body == s@.skip(start as int),
            body == (if s@[0] == '-' || s@[0] == '+' {
                s@.drop_first()
            } else {
                s@
            }),
            body.len() > 0,
            forall|j: int| 0 <= j < k - start ==> is_digit(#[trigger] body[j]),
            negative ==> v == -digits_value(body.take(k - start)),
            !negative ==> v == digits_value(body.take(k - start)),
            negative == (s@[0] == '-'),
        decreases n - k,
    {
        let c = s[k];
        assert(c == body[k - start]);
        if !(48 <= (c as u32) && (c as u32) <= 57) {
            assert(!is_digit(body[k - start]));
            return None;
        }
        let d = (c as u32 - 48) as i64;
        assert(body.take(k - start + 1).drop_last() == body.take(k - start));
        let scaled = match v.checked_mul(10) {
            Some(x) => x,
            None => {
                assert(parse_i64(s@).is_none()) by {
                    if all_digits(body) {
                        lemma_digits_prefix(body, k - start + 1);
                        lemma_digits_nonneg(body.take(k - start));
                    }
                }
                return None;
            },
        };
        let next = if negative {
            scaled.checked_sub(d)
        } else {
            scaled.checked_add(d)
        };
        match next {
            Some(x) => {
                v = x;
            },
            None => {
                assert(parse_i64(s@).is_none()) by {
                    if all_digits(body) {
                        lemma_digits_prefix(body, k - start + 1);
                    }
                }
                return None;
            },
        }
        k = k + 1;
    }
    assert(body.take(n - start) == body);
    Some(v)
}

fn find_op(e: &Vec<char>, additive: bool) -> (r: Option<usize>)
    ensures
        r matches Some(i) ==> find_operator(e@, 1, additive) == Some(i as int),
        r is None ==> find_operator(e@, 1, additive) is None,
{
    let mut i: usize = 1;
    while i < e.len()
        invariant
            1 <= i,
            find_operator(e@, 1, additive) == find_operator(e@, i as int, additive),
        decreases e@.len() - i,
    {
        let c = e[i];
        if (additive && (c == '+' || c == '-')) || (!additive && (c == '*' || c == '/' || c
            == '%')) {
            return Some(i);
        }
        i = i + 1;
    }
    None
}

fn apply_op(op: char, a: i64, b: i64) -> (r: Result<i64, ArithmeticError>)
    ensures
        r == apply_operator(op, a, b),
{
    if op == '+' {
        match a.checked_add(b) {
            Some(v) => Ok(v),
            None => Err(ArithmeticError::Overflow),
        }
    } else if op == '-' {
        match a.checked_sub(b) {
            Some(v) => Ok(v),
            None => Err(ArithmeticError::Overflow),
        }
    } else if op == '*' {
        match a.checked_mul(b) {
            Some(v) => Ok(v),
            None => Err(ArithmeticError::Overflow),
        }
    } else if b == 0 {
        Err(ArithmeticError::DivisionByZero)
    } else {
        match a.checked_div(b) {
            None => Err(ArithmeticError::Overflow),
            Some(q) => if op == '/' {
                Ok(q)
            } else {
                match q.checked_mul(b) {
                    None => Err(ArithmeticError::Overflow),
                    Some(m) => match a.checked_sub(m) {
                        Some(v) => Ok(v),
                        None => Err(ArithmeticError::Overflow),
                    },
                }
            },
        }
    }
}

fn eval_chars(s: &Vec<char>) -> (r: Result<i64, ArithmeticError>)
    ensures
        r == arithmetic_value(s@),
    decreases s@.len(),
{
    let e = trim_chars(s);
    proof {
        lemma_trimmed_len(s@);
        lemma_find_operator_range(e@, 1, true);
        lemma_find_operator_range(e@, 1, false);
    }
    if let Some(v) = parse_chars(&e) {
        return Ok(v);
    }
    let split = match find_op(&e, true) {
        Some(i) => Some(i),
        None => find_op(&e, false),
    };
    match split {
        None => Err(ArithmeticError::InvalidExpression),
        Some(i) => {
            let left = sub_chars(&e, 0, i);
            let right = sub_chars(&e, i + 1, e.len());
            assert(left@ == e@.take(i as int));
            assert(right@ == e@.skip(i + 1));
            let a = match eval_chars(&left) {
                Ok(a) => a,
                Err(x) => return Err(x),
            };
            let b = match eval_chars(&right) {
                Ok(b) => b,
                Err(x) => return Err(x),
            };
            apply_op(e[i], a, b)
        },
    }
}

/// The interactive shell's line editor, history, environment and signal
/// flags.
pub struct Shell {
    env: EnvironmentVariables,
    cwd: String,
    history: Vec<String>,
    history_pos: isize,
    current_line: Vec<char>,
    cursor_pos: usize,
    jobs: Vec<Job>,
    next_job_id: usize,
    interrupt_requested: bool,
    suspend_requested: bool,
}

impl Shell {
    /// The line being edited.
    pub closed spec fn line(&self) -> Seq<char> {
        self.current_line@
    }

    /// The cursor's position in the line, in characters.
    pub closed spec fn cursor(&self) -> int {
        self.cursor_pos as int
    }

    /// The command history, oldest first.
    pub closed spec fn history(&self) -> Seq<Seq<char>> {
        self.history@.map_values(|s: String| s@)
    }

    /// The history entry being shown, or -1 when the edited line is.
    pub closed spec fn browse_pos(&self) -> int {
        self.history_pos as int
    }

    /// An interrupt (Ctrl+C) is pending.
    pub closed spec fn interrupt_pending(&self) -> bool {
        self.interrupt_requested
    }

    /// A suspend (Ctrl+Z) is pending.
    pub closed spec fn suspend_pending(&self) -> bool {
        self.suspend_requested
    }

    /// The working directory.
    pub closed spec fn working_dir(&self) -> Seq<char> {
        self.cwd@
    }

    /// The environment.
    pub closed spec fn environment(&self) -> Map<Seq<char>, Seq<char>> {
        self.env@
    }

    /// The cursor lies within the line, the browsing position within the
    /// history, and the history within its bound.
    pub open spec fn wf(&self) -> bool {
        &&& 0 <= self.cursor() <= self.line().len()
        &&& self.browse_pos() == -1 || 0 <= self.browse_pos() < self.history().len()
        &&& self.history().len() <= MAX_HISTORY
    }

    /// A shell in `/` with the standard environment, an empty line and
    /// history, and no pending signal.
    pub fn new() -> (r: Shell)
        ensures
            r.wf(),
            r.line() == Seq::<char>::empty(),
            r.cursor() == 0,
            r.history() == Seq::<Seq<char>>::empty(),
            r.browse_pos() == -1,
            !r.interrupt_pending(),
            !r.suspend_pending(),
            r.working_dir() == "/"@,
            r.environment() == EnvironmentVariables::new_spec(),
    {
        let r = Shell {
            env: EnvironmentVariables::new(),
            cwd: "/".to_owned(),
            history: Vec::new(),
            history_pos: -1,
            current_line: Vec::new(),
            cursor_pos: 0,
            jobs: Vec::new(),
            next_job_id: 1,
            interrupt_requested: false,
            suspend_requested: false,
        };
        assert(r.history() =~= Seq::<Seq<char>>::empty());
        r
    }

    /// Whether `text` matches the glob `pattern` (`*`, `?`, `[...]`).
    pub fn glob_match(&self, pattern: &str, text: &str) -> (r: bool)
        ensures
            r == glob_from(pattern@, 0, text@),
    {
        let p = chars_of(pattern);
        let t = chars_of(text);
        assert(t@.skip(0) == t@);
        glob_at(&p, 0, &t, 0)
    }

    /// `path` with a leading `~` expanded to `HOME` (or `/home/user`) and
    /// made absolute against the working directory.
    pub fn resolve_path(&self, path: &str) -> (r: String)
        ensures
            r@ == resolved_path(
                if self.environment().contains_key("HOME"@) {
                    self.environment()["HOME"@]
                } else {
                    default_home()
                },
                self.working_dir(),
                path@,
            ),
    {
        let p = chars_of(path);
        let home = match self.env.get("HOME") {
            Some(h) => chars_of(h.as_str()),
            None => chars_of("/home/user"),
        };
        let mut expanded: Vec<char> = Vec::new();
        if p.len() >= 2 && p[0] == '~' && p[1] == '/' {
            extend_chars(&mut expanded, &home, 0);
            extend_chars(&mut expanded, &p, 1);
            assert(home@.skip(0) == home@);
        } else if p.len() == 1 && p[0] == '~' {
            extend_chars(&mut expanded, &home, 0);
            assert(home@.skip(0) == home@);
            assert(p@ == seq!['~']);
        } else {
            extend_chars(&mut expanded, &p, 0);
            assert(p@.skip(0) == p@);
            assert(p@ != seq!['~']) by {
                if p@ == seq!['~'] {
                    assert(p@.len() == 1 && p@[0] == '~');
                }
            }
        }
        if expanded.len() > 0 && expanded[0] == '/' {
            return string_of(&expanded);
        }
        let cwd = chars_of(self.cwd.as_str());
        let mut out: Vec<char> = Vec::new();
        if cwd.len() == 1 && cwd[0] == '/' {
            assert(cwd@ == seq!['/']);
            out.push('/');
        } else {
            assert(cwd@ != seq!['/']) by {
                if cwd@ == seq!['/'] {
                    assert(cwd@.len() == 1 && cwd@[0] == '/');
                }
            }
            extend_chars(&mut out, &cwd, 0);
            assert(cwd@.skip(0) == cwd@);
            out.push('/');
        }
        extend_chars(&mut out, &expanded, 0);
        assert(expanded@.skip(0) == expanded@);
        string_of(&out)
    }

    /// The built-in command names that start with `prefix`, or nothing
    /// when none does.
    pub fn complete_command(&self, prefix: &str) -> (r: Option<Vec<String>>)
        ensures
            names_with_prefix(command_names(), prefix@).len() == 0 ==> r.is_none(),
            names_with_prefix(command_names(), prefix@).len() > 0 ==> (r matches Some(v)
                && v@.map_values(|s: String| s@) == names_with_prefix(command_names(), prefix@)),
    {
        let names: Vec<String> = vec![
            "alias".to_owned(),
            "bg".to_owned(),
            "cat".to_owned(),
            "cd".to_owned(),
            "clear/cls".to_owned(),
            "echo".to_owned(),
            "export".to_owned(),
            "fg".to_owned(),
            "help".to_owned(),
            "jobs".to_owned(),
            "ls".to_owned(),
            "mkdir".to_owned(),
            "ps".to_owned(),
            "pwd".to_owned(),
            "reboot".to_owned(),
            "rm".to_owned(),
            "source".to_owned(),
            "unalias".to_owned(),
            "unset".to_owned(),
        ];
        let ghost all = names@.map_values(|s: String| s@);
        assert(all =~= command_names());
        let want = chars_of(prefix);
        let mut found: Vec<String> = Vec::new();
        let mut i: usize = 0;
        while i < names.len()
            invariant
                i <= names@.len(),
                all == names@.map_values(|s: String| s@),
                want@ == prefix@,
                found@.map_values(|s: String| s@) == names_with_prefix(all.take(i as int), prefix@),
            decreases names@.len() - i,
        {
            assert(all.take(i + 1).drop_last() =~= all.take(i as int));
            let word = chars_of(names[i].as_str());
            if starts_with(&word, &want) {
                let ghost before = found@;
                found.push(names[i].clone());
                assert(found@.map_values(|s: String| s@) =~= before.map_values(|s: String| s@).push(
                    names@[i as int]@,
                ));
            }
            i = i + 1;
        }
        assert(all.take(names@.len() as int) =~= all);
        if found.len() == 0 {
            None
        } else {
            Some(found)
        }
    }

    /// The `unset` command: removes each named variable.
    pub fn cmd_unset(&mut self, args: &[&str]) -> (r: Result<(), &'static str>)
        ensures
            r.is_ok(),
            final(self).environment() == old(self).environment().remove_keys(
                names_among(args@, args@.len() as int),
            ),
            final(self).line() == old(self).line(),
            final(self).cursor() == old(self).cursor(),
            final(self).history() == old(self).history(),
            final(self).browse_pos() == old(self).browse_pos(),
    {
        let mut i: usize = 0;
        while i < args.len()
            invariant
                i <= args@.len(),
                self.environment() == old(self).environment().remove_keys(
                    names_among(args@, i as int),
                ),
                self.line() == old(self).line(),
                self.cursor() == old(self).cursor(),
                self.history() == old(self).history(),
                self.browse_pos() == old(self).browse_pos(),
            decreases args@.len() - i,
        {
            self.env.unset(args[i]);
            assert(names_among(args@, i + 1) =~= names_among(args@, i as int).insert(
                args@[i as int]@,
            ));
            assert(self.environment() =~= old(self).environment().remove_keys(
                names_among(args@, i + 1),
            ));
            i = i + 1;
        }
        Ok(())
    }

    /// The value of the arithmetic expression `expr` (`+`, `-`, `*`, `/`,
    /// `%` on 64-bit integers).
    pub fn eval_arithmetic(&self, expr: &str) -> (r: Result<i64, ArithmeticError>)
        ensures
            r == arithmetic_value(expr@),
    {
        let chars = chars_of(expr);
        eval_chars(&chars)
    }

    /// Reports whether an interrupt was pending, and clears it.
    pub fn check_interrupt(&mut self) -> (r: bool)
        ensures
            final(self).line() == old(self).line(),
            final(self).cursor() == old(self).cursor(),
            final(self).history() == old(self).history(),
            final(self).browse_pos() == old(self).browse_pos(),
            final(self).working_dir() == old(self).working_dir(),
            final(self).environment() == old(self).environment(),
            final(self).wf() == old(self).wf(),
            r == old(self).interrupt_pending(),
            !final(self).interrupt_pending(),
            final(self).suspend_pending() == old(self).suspend_pending(),
    {
        let was_interrupted = self.interrupt_requested;
        self.interrupt_requested = false;
        was_interrupted
    }

    /// Reports whether a suspend was pending, and clears it.
    pub fn check_suspend(&mut self) -> (r: bool)
        ensures
            final(self).line() == old(self).line(),
            final(self).cursor() == old(self).cursor(),
            final(self).history() == old(self).history(),
            final(self).browse_pos() == old(self).browse_pos(),
            final(self).working_dir() == old(self).working_dir(),
            final(self).environment() == old(self).environment(),
            final(self).wf() == old(self).wf(),
            r == old(self).suspend_pending(),
            !final(self).suspend_pending(),
            final(self).interrupt_pending() == old(self).interrupt_pending(),
    {
        let was_suspended = self.suspend_requested;
        self.suspend_requested = false;
        was_suspended
    }

    /// Marks an interrupt pending (Ctrl+C).
    pub fn request_interrupt(&mut self)
        ensures
            final(self).line() == old(self).line(),
            final(self).cursor() == old(self).cursor(),
            final(self).history() == old(self).history(),
            final(self).browse_pos() == old(self).browse_pos(),
            final(self).working_dir() == old(self).working_dir(),
            final(self).environment() == old(self).environment(),
            final(self).wf() == old(self).wf(),
            final(self).interrupt_pending(),
            final(self).suspend_pending() == old(self).suspend_pending(),
    {
        self.interrupt_requested = true;
    }

    /// Marks a suspend pending (Ctrl+Z).
    pub fn request_suspend(&mut self)
        ensures
            final(self).line() == old(self).line(),
            final(self).cursor() == old(self).cursor(),
            final(self).history() == old(self).history(),
            final(self).browse_pos() == old(self).browse_pos(),
            final(self).working_dir() == old(self).working_dir(),
            final(self).environment() == old(self).environment(),
            final(self).wf() == old(self).wf(),
            final(self).suspend_pending(),
            final(self).interrupt_pending() == old(self).interrupt_pending(),
    {
        self.suspend_requested = true;
    }

    /// Appends `cmd` to the history unless it is empty or repeats the
    /// newest entry; beyond the bound the oldest entry is dropped.
    pub fn add_to_history(&mut self, cmd: &str)
        requires
            old(self).wf(),
        ensures
            final(self).wf(),
            final(self).line() == old(self).line(),
            final(self).cursor() == old(self).cursor(),
            final(self).browse_pos() == old(self).browse_pos(),
            ({
                let h = old(self).history();
                if cmd@.len() == 0 || (h.len() > 0 && h.last() == cmd@) {
                    final(self).history() == h
                } else if h.len() + 1 > MAX_HISTORY {
                    final(self).history() == h.push(cmd@).drop_first()
                } else {
                    final(self).history() == h.push(cmd@)
                }
            }),
    {
        if cmd.is_empty() {
            return;
        }
        let c = cmd.to_owned();
        let n = self.history.len();
        if n > 0 {
            if self.history[n - 1] == c {
                return;
            }
        }
        let ghost h = self.history();
        self.history.push(c);
        assert(self.history() =~= h.push(cmd@));
        if self.history.len() > MAX_HISTORY {
            self.history.remove(0);
            assert(self.history() =~= h.push(cmd@).drop_first());
        }
    }

    /// Moves through the history by `delta` (negative: older) and returns
    /// the text to show: the entry reached; the oldest entry again when
    /// moving before it; the edited line when moving past the newest, which
    /// ends browsing. Nothing with an empty history, or when moving down
    /// while not browsing.
    pub fn history_navigate(&mut self, delta: isize) -> (r: Option<String>)
        requires
            old(self).wf(),
        ensures
            final(self).wf(),
            final(self).line() == old(self).line(),
            final(self).cursor() == old(self).cursor(),
            final(self).history() == old(self).history(),
            ({
                let h = old(self).history();
                let pos = old(self).browse_pos();
                let target = browse_target(h.len() as int, pos, delta as int);
                if h.len() == 0 || (pos == -1 && delta >= 0) {
                    r.is_none() && final(self).browse_pos() == pos
                } else if target < 0 {
                    r matches Some(t) && t@ == h[pos] && final(self).browse_pos() == pos
                } else if target >= h.len() {
                    r matches Some(t) && t@ == old(self).line() && final(self).browse_pos() == -1
                } else {
                    r matches Some(t) && t@ == h[target] && final(self).browse_pos() == target
                }
            }),
    {
        let n = self.history.len();
        if n == 0 {
            return None;
        }
        let new_pos: isize = if self.history_pos == -1 {
            if delta < 0 {
                (n - 1) as isize
            } else {
                return None;
            }
        } else if delta > MAX_HISTORY as isize {
            MAX_HISTORY as isize
        } else {
            self.history_pos + delta
        };
        if new_pos < 0 {
            return Some(self.history[self.history_pos as usize].clone());
        } else if new_pos >= n as isize {
            self.history_pos = -1;
            return Some(string_of(&self.current_line));
        }
        self.history_pos = new_pos;
        Some(self.history[new_pos as usize].clone())
    }

    /// Moves the cursor by `delta` characters, held within the line, and
    /// returns its new position.
    pub fn move_cursor(&mut self, delta: isize) -> (r: usize)
        requires
            old(self).wf(),
        ensures
            final(self).wf(),
            r == clamp_cursor(old(self).cursor(), delta as int, old(self).line().len() as int),
            final(self).cursor() == r,
            final(self).line() == old(self).line(),
            final(self).history() == old(self).history(),
            final(self).browse_pos() == old(self).browse_pos(),
    {
        let len = self.current_line.len();
        let cursor = self.cursor_pos;
        let new_pos = if delta >= 0 {
            let d = delta as usize;
            if d >= len - cursor {
                len
            } else {
                cursor + d
            }
        } else {
            let d = (-(delta + 1)) as usize + 1;
            if d >= cursor {
                0
            } else {
                cursor - d
            }
        };
        self.cursor_pos = new_pos;
        new_pos
    }

    /// Inserts `ch` at the cursor and moves the cursor past it.
    pub fn insert_char(&mut self, ch: char)
        requires
            old(self).wf(),
            old(self).line().len() < usize::MAX,
        ensures
            final(self).wf(),
            final(self).line() == old(self).line().insert(old(self).cursor(), ch),
            final(self).cursor() == old(self).cursor() + 1,
            final(self).history() == old(self).history(),
            final(self).browse_pos() == old(self).browse_pos(),
    {
        self.current_line.insert(self.cursor_pos, ch);
        self.cursor_pos = self.cursor_pos + 1;
    }

    /// Deletes the character before the cursor (backspace); returns whether
    /// there was one.
    pub fn delete_char(&mut self) -> (r: bool)
        requires
            old(self).wf(),
        ensures
            final(self).wf(),
            r == (old(self).cursor() > 0),
            r ==> final(self).line() == old(self).line().remove(old(self).cursor() - 1)
                && final(self).cursor() == old(self).cursor() - 1,
            !r ==> final(self).line() == old(self).line() && final(self).cursor() == old(
                self,
            ).cursor(),
            final(self).history() == old(self).history(),
            final(self).browse_pos() == old(self).browse_pos(),
    {
        if self.cursor_pos > 0 {
            self.current_line.remove(self.cursor_pos - 1);
            self.cursor_pos = self.cursor_pos - 1;
            true
        } else {
            false
        }
    }

    /// The line being edited.
    pub fn get_current_line(&self) -> (r: String)
        ensures
            r@ == self.line(),
    {
        string_of(&self.current_line)
    }

    /// The cursor position.
    pub fn get_cursor_pos(&self) -> (r: usize)
        ensures
            r == self.cursor(),
    {
        self.cursor_pos
    }

    /// Empties the line and stops browsing the history.
    pub fn clear_current_line(&mut self)
        requires
            old(self).wf(),
        ensures
            final(self).wf(),
            final(self).line() == Seq::<char>::empty(),
            final(self).cursor() == 0,
            final(self).browse_pos() == -1,
            final(self).history() == old(self).history(),
    {
        self.current_line.clear();
        self.cursor_pos = 0;
        self.history_pos = -1;
    }

    /// Replaces the line by `line`, with the cursor at its end.
    pub fn set_current_line(&mut self, line: String)
        requires
            old(self).wf(),
        ensures
            final(self).wf(),
            final(self).line() == line@,
            final(self).cursor() == line@.len(),
            final(self).history() == old(self).history(),
            final(self).browse_pos() == old(self).browse_pos(),
    {
        self.current_line = chars_of(line.as_str());
        self.cursor_pos = self.current_line.len();
    }

    /// Replaces the word before the cursor (from just after the last space
    /// before the cursor) by `completion`, and puts the cursor after it.
    pub fn apply_completion(&mut self, completion: &str)
        requires
            old(self).wf(),
            old(self).line().len() + completion@.len() <= usize::MAX,
        ensures
            final(self).wf(),
            ({
                let l = old(self).line();
                let c = old(self).cursor();
                let start = word_start(l, c);
                &&& final(self).line() == l.subrange(0, start) + completion@ + l.subrange(
                    c,
                    l.len() as int,
                )
                &&& final(self).cursor() == start + completion@.len()
            }),
            final(self).history() == old(self).history(),
            final(self).browse_pos() == old(self).browse_pos(),
    {
        let ghost l = self.current_line@;
        let c = self.cursor_pos;
        let mut start: usize = c;
        while start > 0 && self.current_line[start - 1] != ' '
            invariant
                start <= c,
                c <= l.len(),
                l == self.current_line@,
                forall|j: int| start <= j < c ==> l[j] != ' ',
            decreases start,
        {
            start = start - 1;
        }
        proof {
            lemma_word_start(l, c as int, start as int);
        }
        let word = chars_of(completion);
        let mut out: Vec<char> = Vec::new();
        let mut i: usize = 0;
        while i < start
            invariant
                i <= start,
                start <= c,
                c <= l.len(),
                l == self.current_line@,
                out@ == l.subrange(0, i as int),
            decreases start - i,
        {
            out.push(self.current_line[i]);
            assert(l.subrange(0, i + 1) == l.subrange(0, i as int).push(l[i as int]));
            i = i + 1;
        }
        let mut j: usize = 0;
        while j < word.len()
            invariant
                j <= word@.len(),
                word@ == completion@,
                out@ == l.subrange(0, start as int) + word@.subrange(0, j as int),
            decreases word@.len() - j,
        {
            out.push(word[j]);
            assert(word@.subrange(0, j + 1) == word@.subrange(0, j as int).push(word@[j as int]));
            j = j + 1;
        }
        assert(word@.subrange(0, word@.len() as int) == word@);
        let new_cursor = out.len();
        let mut k: usize = c;
        while k < self.current_line.len()
            invariant
                c <= k <= l.len(),
                l == self.current_line@,
                out@ == l.subrange(0, start as int) + completion@ + l.subrange(c as int, k as int),
            decreases l.len() - k,
        {
            out.push(self.current_line[k]);
            assert(l.subrange(c as int, k + 1) == l.subrange(c as int, k as int).push(l[k as int]));
            k = k + 1;
        }
        self.current_line = out;
        self.cursor_pos = new_cursor;
    }
}

/// Where the word that ends at `c` starts: just after the last space
/// before `c`, or 0.
pub open spec fn word_start(l: Seq<char>, c: int) -> int
    decreases c,
{
    if c <= 0 {
        0
    } else if l[c - 1] == ' ' {
        c
    } else {
        word_start(l, c - 1)
    }
}

proof fn lemma_word_start(l: Seq<char>, c: int, start: int)
    requires
        0 <= start <= c <= l.len(),
        forall|j: int| start <= j < c ==> l[j] != ' ',
        start == 0 || l[start - 1] == ' ',
    ensures
        word_start(l, c) == start,
    decreases c,
{
    if c > start {
        lemma_word_start(l, c - 1, start);
    }
}

impl EnvironmentVariables {
    /// The standard variables.
    pub open spec fn new_spec() -> Map<Seq<char>, Seq<char>> {
        Map::<Seq<char>, Seq<char>>::empty().insert("PATH"@, "/bin:/usr/bin"@).insert(
            "HOME"@,
            "/home/user"@,
        ).insert("USER"@, "user"@).insert("SHELL"@, "/bin/shell"@).insert(
            "TERM"@,
            "xterm-256color"@,
        ).insert("LANG"@, "en_US.UTF-8"@)
    }
}

} // verus!
