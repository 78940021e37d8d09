//! Concatenating the inputs of one run.

use crate::config::{texts, Config, ConfigView};
use crate::render::{lemma_unnumbered_output, render_into, rendered};
use vstd::prelude::*;
use vstd::string::*;

verus! {

/// One input after the attempt to open and read it.
pub struct Input {
    /// The name that the input was asked for by.
    pub name: String,
    /// The lines that were read, without their line ends, or else the
    /// reason why the input could not be opened.
    pub opened: Result<Vec<String>, String>,
}

/// What an `Input` holds, as mathematical values.
pub struct InputView {
    /// The name that the input was asked for by.
    pub name: Seq<char>,
    /// The lines that were read, or the reason why none was.
    pub opened: Result<Seq<Seq<char>>, Seq<char>>,
}

impl View for Input {
    type V = InputView;

    open spec fn view(&self) -> InputView {
        InputView {
            name: self.name@,
            opened: match self.opened {
                Ok(lines) => Ok(texts(lines@)),
                Err(reason) => Err(reason@),
            },
        }
    }
}

/// The views of a sequence of inputs.
pub open spec fn input_views(inputs: Seq<Input>) -> Seq<InputView> {
    Seq::new(inputs.len(), |k: int| inputs[k]@)
}

/// What a run produces.
pub struct Report {
    /// The text for standard output.
    pub output: String,
    /// One warning for each input that could not be opened, in the order of
    /// the inputs, for standard error.
    pub warnings: Vec<String>,
}

/// Whether an input was opened.
pub open spec fn was_opened(input: InputView) -> bool {
    input.opened is Ok
}

/// The text that one input adds to the output: its lines as they are
/// written, or nothing where it could not be opened.
pub open spec fn contribution(cfg: ConfigView, input: InputView) -> Seq<char> {
    match input.opened {
        Ok(lines) => rendered(cfg, lines),
        Err(_) => Seq::empty(),
    }
}

/// What the first `k` of `inputs` add to the output, one entry each.
pub open spec fn contributions(cfg: ConfigView, inputs: Seq<InputView>, k: int) -> Seq<Seq<char>>
    recommends
        0 <= k <= inputs.len(),
{
    Seq::new(k as nat, |j: int| contribution(cfg, inputs[j]))
}

/// The output of a run over `inputs`: what each adds, in their order.
pub open spec fn output_of(cfg: ConfigView, inputs: Seq<InputView>) -> Seq<char> {
    contributions(cfg, inputs, inputs.len() as int).flatten()
}

/// The warning for an input that could not be opened.
pub open spec fn warning(name: Seq<char>, reason: Seq<char>) -> Seq<char> {
    "Failed to open "@ + name + ": "@ + reason
}

/// The warning for `input`, which could not be opened.
pub open spec fn warning_for(input: InputView) -> Seq<char>
    recommends
        !was_opened(input),
{
    warning(input.name, input.opened->Err_0)
}

/// The warnings of a run over `inputs`: one for each input that could not
/// be opened, in their order.
pub open spec fn warnings_of(inputs: Seq<InputView>) -> Seq<Seq<char>> {
    inputs.filter(|input: InputView| !was_opened(input)).map_values(
        |input: InputView| warning_for(input),
    )
}

/// One more input adds its contribution at the end of the output, and its
/// warning, if it has one, at the end of the warnings.
pub proof fn lemma_run_step(cfg: ConfigView, inputs: Seq<InputView>, next: InputView)
    ensures
        output_of(cfg, inputs.push(next)) == output_of(cfg, inputs) + contribution(cfg, next),
        warnings_of(inputs.push(next)) == if was_opened(next) {
            warnings_of(inputs)
        } else {
            warnings_of(inputs).push(warning_for(next))
        },
{
    let longer = inputs.push(next);
    assert(contributions(cfg, longer, longer.len() as int) =~= contributions(
        cfg,
        inputs,
        inputs.len() as int,
    ).push(contribution(cfg, next)));
    contributions(cfg, inputs, inputs.len() as int).lemma_flatten_push(contribution(cfg, next));
    reveal(Seq::filter);
    assert(longer.drop_last() =~= inputs);
    assert(warnings_of(longer) =~= if was_opened(next) {
        warnings_of(inputs)
    } else {
        warnings_of(inputs).push(warning_for(next))
    });
}

/// Those of `inputs` that were opened, in their order.
pub open spec fn opened_inputs(inputs: Seq<InputView>) -> Seq<InputView> {
    inputs.filter(|input: InputView| was_opened(input))
}

/// The inputs that could not be opened leave no trace in the output: it is
/// the output of a run over the other inputs alone, in their order. Each of
/// them has its warning, which holds its name.
pub proof fn lemma_unopened_inputs_are_skipped(cfg: ConfigView, inputs: Seq<InputView>)
    ensures
        output_of(cfg, inputs) == output_of(cfg, opened_inputs(inputs)),
        warnings_of(inputs).len() + opened_inputs(inputs).len() == inputs.len(),
        warnings_of(opened_inputs(inputs)).len() == 0,
    decreases inputs.len(),
{
    reveal(Seq::filter);
    if inputs.len() == 0 {
        assert(opened_inputs(inputs) =~= inputs);
    } else {
        let front = inputs.drop_last();
        let last = inputs.last();
        lemma_unopened_inputs_are_skipped(cfg, front);
        assert(front.push(last) =~= inputs);
        lemma_run_step(cfg, front, last);
        if was_opened(last) {
            assert(opened_inputs(inputs) == opened_inputs(front).push(last));
            lemma_run_step(cfg, opened_inputs(front), last);
        } else {
            assert(opened_inputs(inputs) == opened_inputs(front));
            assert(output_of(cfg, front) + contribution(cfg, last) =~= output_of(cfg, front));
        }
    }
}

/// With no numbering, the output is the lines of the inputs that were
/// opened, each followed by one newline, in the order of the inputs.
pub proof fn lemma_unnumbered_run(cfg: ConfigView, inputs: Seq<InputView>)
    requires
        !cfg.number_lines,
        !cfg.number_nonblank_lines,
    ensures
        output_of(cfg, inputs) == Seq::new(
            inputs.len(),
            |k: int|
                match inputs[k].opened {
                    Ok(lines) => lines.map_values(|line: Seq<char>| line.push('\n')).flatten(),
                    Err(_) => Seq::empty(),
                },
        ).flatten(),
{
    assert forall|k: int| 0 <= k < inputs.len() implies #[trigger] contribution(cfg, inputs[k])
        == match inputs[k].opened {
        Ok(lines) => lines.map_values(|line: Seq<char>| line.push('\n')).flatten(),
        Err(_) => Seq::empty(),
    } by {
        if let Ok(lines) = inputs[k].opened {
            lemma_unnumbered_output(cfg, lines);
        }
    }
    assert(contributions(cfg, inputs, inputs.len() as int) =~= Seq::new(
        inputs.len(),
        |k: int|
            match inputs[k].opened {
                Ok(lines) => lines.map_values(|line: Seq<char>| line.push('\n')).flatten(),
                Err(_) => Seq::empty(),
            },
    ));
}

/// The warning for an input that could not be opened.
pub fn warning_text(name: &str, reason: &str) -> (r: String)
    ensures
        r@ == warning(name@, reason@),
{
    let mut text = String::from_str("Failed to open ");
    text.append(name);
    text.append(": ");
    text.append(reason);
    text
}

/// Concatenates the inputs in their order, each line numbered as `config`
/// says. An input that could not be opened adds nothing to the output and
/// one warning to the warnings.
pub fn run(config: &Config, inputs: &Vec<Input>) -> (r: Report)
    ensures
        r.output@ == output_of(config@, input_views(inputs@)),
        texts(r.warnings@) == warnings_of(input_views(inputs@)),
{
    let ghost cfg = config@;
    let ghost all = input_views(inputs@);
    let mut output = String::new();
    let mut warnings: Vec<String> = Vec::new();
    let mut k: usize = 0;
    assert(all.take(0) =~= Seq::<InputView>::empty());
    assert(contributions(cfg, all.take(0), 0) =~= Seq::<Seq<char>>::empty());
    assert(output@ =~= output_of(cfg, all.take(0)));
    assert(texts(warnings@) =~= warnings_of(all.take(0))) by {
        reveal(Seq::filter);
    }
    while k < inputs.len()
        invariant
            k <= inputs.len(),
            cfg == config@,
            all == input_views(inputs@),
            output@ == output_of(cfg, all.take(k as int)),
            texts(warnings@) == warnings_of(all.take(k as int)),
        decreases inputs.len() - k,
    {
        let input = &inputs[k];
        proof {
            lemma_run_step(cfg, all.take(k as int), all[k as int]);
            assert(all.take(k as int).push(all[k as int]) =~= all.take(k + 1));
            assert(all[k as int] == input@);
        }
        match &input.opened {
            Ok(lines) => {
                render_into(config, lines, &mut output);
            },
            Err(reason) => {
                let ghost before = texts(warnings@);
                let text = warning_text(input.name.as_str(), reason.as_str());
                warnings.push(text);
                assert(texts(warnings@) =~= before.push(warning_for(input@)));
                assert(output@ =~= output@ + Seq::<char>::empty());
            },
        }
        k = k + 1;
    }
    assert(all.take(k as int) =~= all);
    Report { output, warnings }
}

} // verus!
