//! Rendering the lines of one input.

use crate::config::{texts, Config, ConfigView};
use crate::decimal::{decimal, decimal_digits};
use vstd::prelude::*;
use vstd::string::*;

verus! {

/// A line as it is written without a number: the line and a newline.
pub open spec fn unnumbered(line: Seq<char>) -> Seq<char> {
    line.push('\n')
}

/// A line as it is written with the number `n`: a tab, the number in
/// decimal, a space, the line and a newline.
pub open spec fn numbered(n: nat, line: Seq<char>) -> Seq<char> {
    seq!['\t'] + decimal_digits(n) + seq![' '] + line + seq!['\n']
}

/// How many of `lines` are not empty.
pub open spec fn nonblank_count(lines: Seq<Seq<char>>) -> nat {
    lines.filter(|line: Seq<char>| line.len() > 0).len()
}

/// The number that line `i` of `lines` carries, if it carries one. Numbers
/// start at one. Where every line is numbered, a line's number is its
/// position; where only the lines that are not empty are numbered, it is its
/// position among those.
pub open spec fn line_number(cfg: ConfigView, lines: Seq<Seq<char>>, i: int) -> Option<nat>
    recommends
        0 <= i < lines.len(),
{
    if cfg.number_lines {
        Some((i + 1) as nat)
    } else if cfg.number_nonblank_lines && lines[i].len() > 0 {
        Some(nonblank_count(lines.take(i)) + 1)
    } else {
        None
    }
}

/// Line `i` of `lines` as it is written.
pub open spec fn rendered_line(cfg: ConfigView, lines: Seq<Seq<char>>, i: int) -> Seq<char>
    recommends
        0 <= i < lines.len(),
{
    match line_number(cfg, lines, i) {
        Some(n) => numbered(n, lines[i]),
        None => unnumbered(lines[i]),
    }
}

/// The first `k` lines of `lines`, each as it is written.
pub open spec fn rendered_lines(cfg: ConfigView, lines: Seq<Seq<char>>, k: int) -> Seq<Seq<char>>
    recommends
        0 <= k <= lines.len(),
{
    Seq::new(k as nat, |i: int| rendered_line(cfg, lines, i))
}

/// The text written for one input that holds `lines`.
pub open spec fn rendered(cfg: ConfigView, lines: Seq<Seq<char>>) -> Seq<char> {
    rendered_lines(cfg, lines, lines.len() as int).flatten()
}

/// One more line that is not empty raises the count by one; an empty line
/// leaves it as it is.
pub proof fn lemma_nonblank_count_step(lines: Seq<Seq<char>>, i: int)
    requires
        0 <= i < lines.len(),
    ensures
        nonblank_count(lines.take(i + 1)) == nonblank_count(lines.take(i)) + if lines[i].len()
            > 0 {
            1nat
        } else {
            0nat
        },
        nonblank_count(lines.take(i)) <= i,
{
    let longer = lines.take(i + 1);
    let pred = |line: Seq<char>| line.len() > 0;
    reveal(Seq::filter);
    assert(longer.drop_last() =~= lines.take(i));
    assert(longer.last() == lines[i]);
    lines.take(i).lemma_filter_len(pred);
}

/// The lines of `lines` that are not empty, in their order.
pub open spec fn nonblank_lines(lines: Seq<Seq<char>>) -> Seq<Seq<char>> {
    lines.filter(|line: Seq<char>| line.len() > 0)
}

/// With no numbering, the text written for an input is each of its lines
/// followed by one newline, in their order.
pub proof fn lemma_unnumbered_output(cfg: ConfigView, lines: Seq<Seq<char>>)
    requires
        !cfg.number_lines,
        !cfg.number_nonblank_lines,
    ensures
        rendered(cfg, lines) == lines.map_values(|line: Seq<char>| line.push('\n')).flatten(),
{
    assert(rendered_lines(cfg, lines, lines.len() as int) =~= lines.map_values(
        |line: Seq<char>| line.push('\n'),
    ));
}

/// Where every line is numbered, each line is written after a tab, its
/// position counted from one, and a space, whether it is empty or not.
pub proof fn lemma_all_lines_numbered(cfg: ConfigView, lines: Seq<Seq<char>>)
    requires
        cfg.number_lines,
    ensures
        forall|i: int|
            0 <= i < lines.len() ==> #[trigger] rendered_line(cfg, lines, i) == seq!['\t']
                + decimal_digits((i + 1) as nat) + seq![' '] + lines[i] + seq!['\n'],
        rendered(cfg, lines) == Seq::new(
            lines.len(),
            |i: int| numbered((i + 1) as nat, lines[i]),
        ).flatten(),
{
    assert(rendered_lines(cfg, lines, lines.len() as int) =~= Seq::new(
        lines.len(),
        |i: int| numbered((i + 1) as nat, lines[i]),
    ));
}

/// Where only the lines that are not empty are numbered, an empty line is
/// written as a bare newline, and a line that is not empty is written with
/// its position, counted from one, among the lines that are not empty. So
/// the empty lines do not change its number: it is written as it would be
/// with the empty lines taken out and every line numbered.
pub proof fn lemma_nonblank_lines_numbered(cfg: ConfigView, lines: Seq<Seq<char>>, i: int)
    requires
        !cfg.number_lines,
        cfg.number_nonblank_lines,
        0 <= i < lines.len(),
    ensures
        lines[i].len() == 0 ==> rendered_line(cfg, lines, i) == seq!['\n'],
        lines[i].len() > 0 ==> {
            let before = nonblank_count(lines.take(i));
            let every = ConfigView { number_lines: true, number_nonblank_lines: false, ..cfg };
            &&& rendered_line(cfg, lines, i) == seq!['\t'] + decimal_digits(before + 1) + seq![' ']
                + lines[i] + seq!['\n']
            &&& before < nonblank_lines(lines).len()
            &&& nonblank_lines(lines)[before as int] == lines[i]
            &&& rendered_line(cfg, lines, i) == rendered_line(every, nonblank_lines(lines), before as int)
        },
{
    let pred = |line: Seq<char>| line.len() > 0;
    if lines[i].len() == 0 {
        assert(rendered_line(cfg, lines, i) =~= seq!['\n']);
    } else {
        let front = lines.take(i);
        let upto = lines.take(i + 1);
        let rest = lines.skip(i + 1);
        reveal(Seq::filter);
        assert(upto.drop_last() =~= front);
        assert(upto.last() == lines[i]);
        assert(upto.filter(pred) == front.filter(pred).push(lines[i]));
        assert(upto + rest =~= lines);
        Seq::filter_distributes_over_add(upto, rest, pred);
    }
}

/// Appends `line` and a newline to `out`.
fn push_unnumbered(out: &mut String, line: &str)
    ensures
        final(out)@ == old(out)@ + unnumbered(line@),
{
    proof {
        reveal_strlit("\n");
    }
    out.append(line);
    out.append("\n");
    assert(out@ =~= old(out)@ + unnumbered(line@));
}

/// Appends `line` with the number `n` before it to `out`.
fn push_numbered(out: &mut String, n: u64, line: &str)
    ensures
        final(out)@ == old(out)@ + numbered(n as nat, line@),
{
    proof {
        reveal_strlit("\t");
        reveal_strlit(" ");
        reveal_strlit("\n");
    }
    let digits = decimal(n);
    out.append("\t");
    out.append(digits.as_str());
    out.append(" ");
    out.append(line);
    out.append("\n");
    assert(out@ =~= old(out)@ + numbered(n as nat, line@));
}

/// Appends to `out` the text written for one input that holds `lines`.
pub fn render_into(config: &Config, lines: &Vec<String>, out: &mut String)
    ensures
        final(out)@ == old(out)@ + rendered(config@, texts(lines@)),
{
    let ghost cfg = config@;
    let ghost all = texts(lines@);
    let number_all = config.number_lines();
    let number_nonblank = config.number_nonblank_lines();
    let mut given: u64 = 0;
    let mut i: usize = 0;
    assert(rendered_lines(cfg, all, 0) =~= Seq::<Seq<char>>::empty());
    assert(all.take(0) =~= Seq::<Seq<char>>::empty());
    assert(out@ =~= old(out)@ + rendered_lines(cfg, all, 0).flatten());
    while i < lines.len()
        invariant
            i <= lines.len(),
            cfg == config@,
            all == texts(lines@),
            number_all == cfg.number_lines,
            number_nonblank == cfg.number_nonblank_lines,
            given <= i,
            number_all ==> given == i,
            !number_all && number_nonblank ==> given == nonblank_count(all.take(i as int)),
            out@ == old(out)@ + rendered_lines(cfg, all, i as int).flatten(),
        decreases lines.len() - i,
    {
        let line = lines[i].as_str();
        let ghost before = out@;
        proof {
            lemma_nonblank_count_step(all, i as int);
            assert(all[i as int] == line@);
            assert(rendered_lines(cfg, all, i + 1) =~= rendered_lines(cfg, all, i as int).push(
                rendered_line(cfg, all, i as int),
            ));
            rendered_lines(cfg, all, i as int).lemma_flatten_push(rendered_line(cfg, all, i as int));
        }
        if number_all || (number_nonblank && !line.is_empty()) {
            given = given + 1;
            push_numbered(out, given, line);
        } else {
            push_unnumbered(out, line);
        }
        assert(out@ == before + rendered_line(cfg, all, i as int));
        assert(out@ =~= old(out)@ + rendered_lines(cfg, all, i + 1).flatten());
        i = i + 1;
    }
    assert(rendered_lines(cfg, all, i as int) == rendered_lines(cfg, all, all.len() as int));
}

/// The text written for one input that holds `lines`.
pub fn render(config: &Config, lines: &Vec<String>) -> (r: String)
    ensures
        r@ == rendered(config@, texts(lines@)),
{
    let mut out = String::new();
    render_into(config, lines, &mut out);
    assert(out@ =~= rendered(config@, texts(lines@)));
    out
}

} // verus!
