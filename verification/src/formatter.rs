//! Rendering a list of parameters as process-environment configuration:
//! one line per parameter, in the order of the list.

use crate::opt::Format;
use crate::params::{param_views, Param, ParamBag};
use vstd::prelude::*;
use vstd::std_specs::convert::FromSpecImpl;
use vstd::string::*;

verus! {

/// The line of one parameter in a `.env` file: `KEY="value"`.
pub open spec fn dot_env_line(param: (Seq<char>, Seq<char>)) -> Seq<char> {
    param.0 + seq!['=', '"'] + param.1 + seq!['"']
}

/// The line of one parameter in a `php-fpm` pool configuration:
/// `env[KEY]="value"`.
pub open spec fn php_fpm_line(param: (Seq<char>, Seq<char>)) -> Seq<char> {
    seq!['e', 'n', 'v', '['] + param.0 + seq![']', '=', '"'] + param.1 + seq!['"']
}

/// The lines `lines` with a line feed between each two of them, and none at
/// the end.
pub open spec fn joined(lines: Seq<Seq<char>>) -> Seq<char>
    decreases lines.len(),
{
    if lines.len() == 0 {
        Seq::empty()
    } else if lines.len() == 1 {
        lines[0]
    } else {
        joined(lines.drop_last()) + seq!['\n'] + lines.last()
    }
}

/// The text of a `.env` file that holds `params`.
pub open spec fn dot_env_text(params: Seq<(Seq<char>, Seq<char>)>) -> Seq<char> {
    joined(Seq::new(params.len(), |i: int| dot_env_line(params[i])))
}

/// The text of the `php-fpm` environment entries that hold `params`.
pub open spec fn php_fpm_text(params: Seq<(Seq<char>, Seq<char>)>) -> Seq<char> {
    joined(Seq::new(params.len(), |i: int| php_fpm_line(params[i])))
}

/// A list of parameters to be written as a `.env` file.
pub struct DotEnv<'a> {
    pub params: &'a Vec<Param>,
}

/// A list of parameters to be written as `php-fpm` environment entries.
pub struct PhpFpm<'a> {
    pub params: &'a Vec<Param>,
}

impl<'a> From<&'a ParamBag> for DotEnv<'a> {
    fn from(bag: &'a ParamBag) -> (r: DotEnv<'a>) {
        DotEnv { params: &bag.params }
    }
}

impl<'a> FromSpecImpl<&'a ParamBag> for DotEnv<'a> {
    open spec fn obeys_from_spec() -> bool {
        true
    }

    open spec fn from_spec(bag: &'a ParamBag) -> DotEnv<'a> {
        DotEnv { params: &bag.params }
    }
}

impl<'a> From<&'a ParamBag> for PhpFpm<'a> {
    fn from(bag: &'a ParamBag) -> (r: PhpFpm<'a>) {
        PhpFpm { params: &bag.params }
    }
}

impl<'a> FromSpecImpl<&'a ParamBag> for PhpFpm<'a> {
    open spec fn obeys_from_spec() -> bool {
        true
    }

    open spec fn from_spec(bag: &'a ParamBag) -> PhpFpm<'a> {
        PhpFpm { params: &bag.params }
    }
}

/// The line of one parameter between three fixed parts: `open`, the key,
/// `middle`, the value, `close`.
spec fn framed_line(
    open: Seq<char>,
    middle: Seq<char>,
    close: Seq<char>,
    param: (Seq<char>, Seq<char>),
) -> Seq<char> {
    open + param.0 + middle + param.1 + close
}

/// The lines of `params` between the three fixed parts, in order.
spec fn framed_lines(
    open: Seq<char>,
    middle: Seq<char>,
    close: Seq<char>,
    params: Seq<(Seq<char>, Seq<char>)>,
) -> Seq<Seq<char>> {
    Seq::new(params.len(), |i: int| framed_line(open, middle, close, params[i]))
}

/// Writes one line for each parameter, each between the three fixed parts,
/// with a line feed between each two lines and none at the end.
fn render_framed(params: &Vec<Param>, open: &str, middle: &str, close: &str) -> (r: String)
    ensures
        r@ == joined(framed_lines(open@, middle@, close@, param_views(params@))),
{
    let ghost lines = framed_lines(open@, middle@, close@, param_views(params@));
    let mut out = String::new();
    let mut i: usize = 0;
    while i < params.len()
        invariant
            i <= params.len(),
            lines == framed_lines(open@, middle@, close@, param_views(params@)),
            out@ == joined(lines.take(i as int)),
        decreases params.len() - i,
    {
        let param = &params[i];
        let ghost line = framed_line(open@, middle@, close@, param@);
        proof {
            reveal_strlit("\n");
            let upto = lines.take(i as int + 1);
            assert(upto.drop_last() =~= lines.take(i as int));
            assert(upto.last() == line);
        }
        let ghost before = out@;
        if i > 0 {
            out.append("\n");
        }
        out.append(open);
        out.append(param.key.as_str());
        out.append(middle);
        out.append(param.value.as_str());
        out.append(close);
        proof {
            if i > 0 {
                assert(out@ =~= before + seq!['\n'] + line);
            } else {
                assert(before =~= Seq::empty());
                assert(out@ =~= line);
            }
        }
        i = i + 1;
    }
    assert(lines.take(i as int) =~= lines);
    out
}

impl<'a> DotEnv<'a> {
    /// The parameters as the text of a `.env` file, without a line feed at
    /// the end.
    pub fn render(&self) -> (r: String)
        ensures
            r@ == dot_env_text(param_views(self.params@)),
    {
        proof {
            reveal_strlit("");
            reveal_strlit("=\"");
            reveal_strlit("\"");
            let params = param_views(self.params@);
            assert forall|i: int| 0 <= i < params.len() implies framed_line(
                ""@,
                "=\""@,
                "\""@,
                params[i],
            ) == dot_env_line(params[i]) by {
                assert(framed_line(""@, "=\""@, "\""@, params[i]) =~= dot_env_line(params[i]));
            }
            assert(framed_lines(""@, "=\""@, "\""@, params) =~= Seq::new(
                params.len(),
                |i: int| dot_env_line(params[i]),
            ));
        }
        render_framed(self.params, "", "=\"", "\"")
    }
}

impl<'a> PhpFpm<'a> {
    /// The parameters as `php-fpm` environment entries, without a line feed
    /// at the end.
    pub fn render(&self) -> (r: String)
        ensures
            r@ == php_fpm_text(param_views(self.params@)),
    {
        proof {
            reveal_strlit("env[");
            reveal_strlit("]=\"");
            reveal_strlit("\"");
            let params = param_views(self.params@);
            assert forall|i: int| 0 <= i < params.len() implies framed_line(
                "env["@,
                "]=\""@,
                "\""@,
                params[i],
            ) == php_fpm_line(params[i]) by {
                assert(framed_line("env["@, "]=\""@, "\""@, params[i]) =~= php_fpm_line(
                    params[i],
                ));
            }
            assert(framed_lines("env["@, "]=\""@, "\""@, params) =~= Seq::new(
                params.len(),
                |i: int| php_fpm_line(params[i]),
            ));
        }
        render_framed(self.params, "env[", "]=\"", "\"")
    }
}

impl Format {
    /// The text of `params` in this format.
    pub open spec fn text(self, params: Seq<(Seq<char>, Seq<char>)>) -> Seq<char> {
        match self {
            Format::DotEnv => dot_env_text(params),
            Format::PhpFpm => php_fpm_text(params),
        }
    }

    /// Renders the parameters of `bag` in this format.
    pub fn render(self, bag: &ParamBag) -> (r: String)
        ensures
            r@ == self.text(bag@.params),
    {
        match self {
            Format::DotEnv => DotEnv::from(bag).render(),
            Format::PhpFpm => PhpFpm::from(bag).render(),
        }
    }
}

/// Whether the text `s` is free of the character `c`.
pub open spec fn lacks(s: Seq<char>, c: char) -> bool {
    forall|i: int| 0 <= i < s.len() ==> s[i] != c
}

/// The position of the first `c` in `s`, or the length of `s` when it holds
/// none.
pub open spec fn first_index(s: Seq<char>, c: char) -> int
    decreases s.len(),
{
    if s.len() == 0 {
        0
    } else if s[0] == c {
        0
    } else {
        1 + first_index(s.drop_first(), c)
    }
}

/// The lines of a text: the stretches between its line feeds. The empty
/// text has no line.
pub open spec fn lines_of(text: Seq<char>) -> Seq<Seq<char>>
    decreases text.len(),
{
    if text.len() == 0 {
        Seq::empty()
    } else {
        let before = lines_of(text.drop_last());
        if text.last() == '\n' {
            before.push(Seq::empty())
        } else if before.len() == 0 {
            seq![seq![text.last()]]
        } else {
            before.update(before.len() - 1, before.last().push(text.last()))
        }
    }
}

/// The parameter that a line of a `.env` file holds: the key is what stands
/// before the first `=`, the value what stands between the `"` behind it
/// and the `"` at the end of the line. A line of another form holds none.
pub open spec fn dot_env_param(line: Seq<char>) -> Option<(Seq<char>, Seq<char>)> {
    let eq = first_index(line, '=');
    if eq + 3 <= line.len() && line[eq + 1] == '"' && line.last() == '"' {
        Some((line.subrange(0, eq), line.subrange(eq + 2, line.len() - 1)))
    } else {
        None
    }
}

/// The parameter that a `php-fpm` environment entry holds: the key is what
/// stands between `env[` and the first `]`, the value what stands between
/// the `="` behind it and the `"` at the end of the line. A line of another
/// form holds none.
pub open spec fn php_fpm_param(line: Seq<char>) -> Option<(Seq<char>, Seq<char>)> {
    let body = line.skip(4);
    let close = first_index(body, ']');
    if line.len() >= 4 && line.take(4) == seq!['e', 'n', 'v', '['] && close + 4 <= body.len()
        && body[close + 1] == '=' && body[close + 2] == '"' && body.last() == '"' {
        Some((body.subrange(0, close), body.subrange(close + 3, body.len() - 1)))
    } else {
        None
    }
}

/// What reading a `.env` text gives: for each line the parameter it holds,
/// if it holds one.
pub open spec fn dot_env_parsed(text: Seq<char>) -> Seq<Option<(Seq<char>, Seq<char>)>> {
    Seq::new(lines_of(text).len(), |i: int| dot_env_param(lines_of(text)[i]))
}

/// What reading `php-fpm` environment entries gives: for each line the
/// parameter it holds, if it holds one.
pub open spec fn php_fpm_parsed(text: Seq<char>) -> Seq<Option<(Seq<char>, Seq<char>)>> {
    Seq::new(lines_of(text).len(), |i: int| php_fpm_param(lines_of(text)[i]))
}

/// The lines `lines` with the text `more` behind the last of them.
spec fn extended(lines: Seq<Seq<char>>, more: Seq<char>) -> Seq<Seq<char>> {
    if more.len() == 0 {
        lines
    } else if lines.len() == 0 {
        seq![more]
    } else {
        lines.update(lines.len() - 1, lines.last() + more)
    }
}

proof fn lemma_lines_of_extended(text: Seq<char>, more: Seq<char>)
    requires
        lacks(more, '\n'),
    ensures
        lines_of(text + more) == extended(lines_of(text), more),
    decreases more.len(),
{
    let lines = lines_of(text);
    if more.len() == 0 {
        assert(text + more =~= text);
    } else {
        let front = more.drop_last();
        assert((text + more).drop_last() =~= text + front);
        assert((text + more).last() == more.last());
        lemma_lines_of_extended(text, front);
        let before = extended(lines, front);
        if front.len() == 0 {
            assert(more =~= seq![more.last()]);
            if lines.len() > 0 {
                assert(lines.last().push(more.last()) =~= lines.last() + more);
            }
        } else if lines.len() == 0 {
            assert(before.update(0, before.last().push(more.last())) =~= seq![more]) by {
                assert(front.push(more.last()) =~= more);
            }
        } else {
            assert((lines.last() + front).push(more.last()) =~= lines.last() + more);
            assert(before.update(before.len() - 1, before.last().push(more.last()))
                =~= extended(lines, more));
        }
    }
}

proof fn lemma_lines_of_joined(lines: Seq<Seq<char>>)
    requires
        forall|i: int| 0 <= i < lines.len() ==> lines[i].len() > 0 && lacks(lines[i], '\n'),
    ensures
        lines_of(joined(lines)) == lines,
    decreases lines.len(),
{
    if lines.len() == 0 {
    } else if lines.len() == 1 {
        lemma_lines_of_extended(Seq::empty(), lines[0]);
        assert(Seq::<char>::empty() + lines[0] =~= lines[0]);
        assert(seq![lines[0]] =~= lines);
    } else {
        let front = lines.drop_last();
        lemma_lines_of_joined(front);
        let text = joined(front) + seq!['\n'];
        assert(text.drop_last() =~= joined(front));
        assert(lines_of(text) == front.push(Seq::empty()));
        lemma_lines_of_extended(text, lines.last());
        assert(front.push(Seq::<char>::empty()).update(
            front.len() as int,
            Seq::<char>::empty() + lines.last(),
        ) =~= lines);
    }
}

proof fn lemma_first_index(before: Seq<char>, c: char, after: Seq<char>)
    requires
        lacks(before, c),
    ensures
        first_index(before + seq![c] + after, c) == before.len(),
    decreases before.len(),
{
    let s = before + seq![c] + after;
    if before.len() > 0 {
        assert(s.drop_first() =~= before.drop_first() + seq![c] + after);
        lemma_first_index(before.drop_first(), c, after);
    }
}

proof fn lemma_dot_env_param(param: (Seq<char>, Seq<char>))
    requires
        lacks(param.0, '='),
    ensures
        dot_env_param(dot_env_line(param)) == Some(param),
{
    let line = dot_env_line(param);
    let after = seq!['"'] + param.1 + seq!['"'];
    assert(line =~= param.0 + seq!['='] + after);
    lemma_first_index(param.0, '=', after);
    let eq = param.0.len() as int;
    assert(line.subrange(0, eq) =~= param.0);
    assert(line.subrange(eq + 2, line.len() - 1) =~= param.1);
}

proof fn lemma_php_fpm_param(param: (Seq<char>, Seq<char>))
    requires
        lacks(param.0, ']'),
    ensures
        php_fpm_param(php_fpm_line(param)) == Some(param),
{
    let line = php_fpm_line(param);
    let body = line.skip(4);
    let after = seq!['=', '"'] + param.1 + seq!['"'];
    assert(line.take(4) =~= seq!['e', 'n', 'v', '[']);
    assert(body =~= param.0 + seq![']'] + after);
    lemma_first_index(param.0, ']', after);
    let close = param.0.len() as int;
    assert(body.subrange(0, close) =~= param.0);
    assert(body.subrange(close + 3, body.len() - 1) =~= param.1);
}

/// Reading a rendered `.env` text gives back the parameters it was rendered
/// from, each at its place, whenever no key holds a `=` and no key or value
/// holds a line feed.
pub proof fn dot_env_round_trip(params: Seq<(Seq<char>, Seq<char>)>)
    requires
        forall|i: int|
            0 <= i < params.len() ==> {
                &&& lacks((#[trigger] params[i]).0, '=')
                &&& lacks(params[i].0, '\n')
                &&& lacks(params[i].1, '\n')
            },
    ensures
        dot_env_parsed(dot_env_text(params)) == Seq::new(params.len(), |i: int| Some(params[i])),
{
    let lines = Seq::new(params.len(), |i: int| dot_env_line(params[i]));
    assert forall|i: int| 0 <= i < lines.len() implies lines[i].len() > 0 && lacks(
        lines[i],
        '\n',
    ) by {
        let p = params[i];
        assert(lines[i] == dot_env_line(p));
    }
    lemma_lines_of_joined(lines);
    assert forall|i: int| 0 <= i < lines.len() implies dot_env_param(lines[i]) == Some(
        params[i],
    ) by {
        lemma_dot_env_param(params[i]);
    }
    assert(dot_env_parsed(dot_env_text(params)) =~= Seq::new(
        params.len(),
        |i: int| Some(params[i]),
    ));
}

/// Reading rendered `php-fpm` environment entries gives back the parameters
/// they were rendered from, each at its place, whenever no key holds a `]`
/// and no key or value holds a line feed.
pub proof fn php_fpm_round_trip(params: Seq<(Seq<char>, Seq<char>)>)
    requires
        forall|i: int|
            0 <= i < params.len() ==> {
                &&& lacks((#[trigger] params[i]).0, ']')
                &&& lacks(params[i].0, '\n')
                &&& lacks(params[i].1, '\n')
            },
    ensures
        php_fpm_parsed(php_fpm_text(params)) == Seq::new(params.len(), |i: int| Some(params[i])),
{
    let lines = Seq::new(params.len(), |i: int| php_fpm_line(params[i]));
    assert forall|i: int| 0 <= i < lines.len() implies lines[i].len() > 0 && lacks(
        lines[i],
        '\n',
    ) by {
        let p = params[i];
        assert(lines[i] == php_fpm_line(p));
    }
    lemma_lines_of_joined(lines);
    assert forall|i: int| 0 <= i < lines.len() implies php_fpm_param(lines[i]) == Some(
        params[i],
    ) by {
        lemma_php_fpm_param(params[i]);
    }
    assert(php_fpm_parsed(php_fpm_text(params)) =~= Seq::new(
        params.len(),
        |i: int| Some(params[i]),
    ));
}

} // verus!
