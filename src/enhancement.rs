//! Requests to the text enhancement service, and the instructions that an
//! enhancement request turns into.
use vstd::prelude::*;

verus! {

/// Text enhancement request.
#[derive(Debug, Clone)]
pub struct EnhancementRequest {
    pub id: String,
    pub text: String,
    pub context: EnhancementContext,
    pub tone: String,
    pub options: EnhancementOptions,
}

/// Enhancement context.
#[derive(Debug, Clone)]
pub struct EnhancementContext {
    pub domain: String,
    pub audience: String,
    pub purpose: String,
    pub format: String,
    pub constraints: Vec<String>,
    pub examples: Vec<String>,
}

/// Enhancement options.
#[derive(Debug, Clone, Copy)]
pub struct EnhancementOptions {
    pub improve_clarity: bool,
    pub fix_grammar: bool,
    pub enhance_style: bool,
    pub adjust_tone: bool,
    pub remove_redundancy: bool,
    pub improve_readability: bool,
    pub preserve_meaning: bool,
    pub maintain_length: bool,
}

/// Improvement categories.
#[derive(Debug, Clone, Copy, PartialEq, Eq, Structural)]
pub enum ImprovementCategory {
    Grammar,
    Spelling,
    Clarity,
    Style,
    Tone,
    Readability,
    Conciseness,
    Flow,
    Structure,
    WordChoice,
}

/// Text summarization request.
#[derive(Debug, Clone)]
pub struct SummarizationRequest {
    pub id: String,
    pub text: String,
    pub max_length: Option<usize>,
    pub style: SummarizationStyle,
    pub include_key_points: bool,
    pub preserve_citations: bool,
}

/// Summarization styles.
#[derive(Debug, Clone, Copy, PartialEq, Eq, Structural)]
pub enum SummarizationStyle {
    Executive,
    Technical,
    Academic,
    Creative,
    BulletPoints,
}

/// Text analysis request.
#[derive(Debug, Clone)]
pub struct TextAnalysisRequest {
    pub id: String,
    pub text: String,
    pub analysis_type: AnalysisType,
}

/// Kinds of text analysis.
#[derive(Debug, Clone, Copy, PartialEq, Eq, Structural)]
pub enum AnalysisType {
    Comprehensive,
    Readability,
    Grammar,
    Sentiment,
    Structure,
    Language,
}

/// A suggestion for improving a text.
#[derive(Debug, Clone)]
pub struct TextSuggestion {
    pub category: String,
    pub description: String,
    pub priority: u8,
    pub impact: String,
}

/// The items of `s` separated by `sep`.
pub open spec fn joined(s: Seq<Seq<char>>, sep: Seq<char>) -> Seq<char>
    decreases s.len(),
{
    if s.len() == 0 {
        Seq::empty()
    } else if s.len() == 1 {
        s[0]
    } else {
        joined(s.drop_last(), sep) + sep + s.last()
    }
}

/// `s` with `line` appended where `cond` holds.
pub open spec fn push_if(s: Seq<Seq<char>>, cond: bool, line: Seq<char>) -> Seq<Seq<char>> {
    if cond {
        s.push(line)
    } else {
        s
    }
}

/// The instruction lines for a request with the given options, tone and
/// constraints, in a fixed order.
pub open spec fn instruction_lines(
    o: EnhancementOptions,
    tone: Seq<char>,
    constraints: Seq<Seq<char>>,
) -> Seq<Seq<char>> {
    let a = push_if(
        Seq::empty(),
        o.improve_clarity,
        "• Improve clarity by rephrasing complex sentences and eliminating ambiguity"@,
    );
    let b = push_if(a, o.fix_grammar, "• Fix grammar, punctuation, and spelling errors"@);
    let c = push_if(b, o.enhance_style, "• Enhance writing style to be more engaging and professional"@);
    let d = push_if(c, o.adjust_tone, "• Adjust tone to be more "@ + tone);
    let e = push_if(d, o.remove_redundancy, "• Remove redundant and repetitive content"@);
    let f = push_if(
        e,
        o.improve_readability,
        "• Improve readability through better sentence structure and word choice"@,
    );
    let g = push_if(f, o.preserve_meaning, "• Preserve the original meaning and intent"@);
    push_if(
        g,
        constraints.len() > 0,
        "• Respect these constraints: "@ + joined(constraints, ", "@),
    )
}

fn join_lines(items: &Vec<String>, sep: &str) -> (r: String)
    ensures
        r@ == joined(items@.map_values(|s: String| s@), sep@),
{
    let ghost views = items@.map_values(|s: String| s@);
    let mut out = String::new();
    let mut i: usize = 0;
    while i < items.len()
        invariant
            i <= items@.len(),
            views == items@.map_values(|s: String| s@),
            out@ == joined(views.take(i as int), sep@),
        decreases items@.len() - i,
    {
        proof {
            assert(views.take(i + 1).drop_last() =~= views.take(i as int));
            assert(views.take(i + 1).last() == items@[i as int]@);
            if i == 0 {
                assert(views.take(0) =~= Seq::<Seq<char>>::empty());
                assert(views.take(1).len() == 1);
            }
        }
        if i > 0 {
            out.append(sep);
        }
        out.append(items[i].as_str());
        i += 1;
    }
    assert(views.take(items@.len() as int) =~= views);
    out
}

fn push_line_if(lines: &mut Vec<String>, cond: bool, line: String)
    ensures
        final(lines)@.map_values(|s: String| s@) == push_if(
            old(lines)@.map_values(|s: String| s@),
            cond,
            line@,
        ),
{
    if cond {
        let ghost before = lines@;
        lines.push(line);
        assert(lines@.map_values(|s: String| s@) =~= before.map_values(|s: String| s@).push(line@));
    }
}

/// The enhancement instructions for a request: one line per requested
/// improvement, and one for the constraints if there are any, separated
/// by newlines.
pub fn build_enhancement_instructions(request: &EnhancementRequest) -> (r: String)
    ensures
        r@ == joined(
            instruction_lines(
                request.options,
                request.tone@,
                request.context.constraints@.map_values(|s: String| s@),
            ),
            "\n"@,
        ),
{
    let o = request.options;
    let mut lines: Vec<String> = Vec::new();
    assert(lines@.map_values(|s: String| s@) =~= Seq::<Seq<char>>::empty());
    push_line_if(
        &mut lines,
        o.improve_clarity,
        String::from_str("• Improve clarity by rephrasing complex sentences and eliminating ambiguity"),
    );
    push_line_if(
        &mut lines,
        o.fix_grammar,
        String::from_str("• Fix grammar, punctuation, and spelling errors"),
    );
    push_line_if(
        &mut lines,
        o.enhance_style,
        String::from_str("• Enhance writing style to be more engaging and professional"),
    );
    let mut tone_line = String::from_str("• Adjust tone to be more ");
    tone_line.append(request.tone.as_str());
    push_line_if(&mut lines, o.adjust_tone, tone_line);
    push_line_if(
        &mut lines,
        o.remove_redundancy,
        String::from_str("• Remove redundant and repetitive content"),
    );
    push_line_if(
        &mut lines,
        o.improve_readability,
        String::from_str("• Improve readability through better sentence structure and word choice"),
    );
    push_line_if(
        &mut lines,
        o.preserve_meaning,
        String::from_str("• Preserve the original meaning and intent"),
    );
    let constraints = join_lines(&request.context.constraints, ", ");
    let mut constraint_line = String::from_str("• Respect these constraints: ");
    constraint_line.append(constraints.as_str());
    push_line_if(&mut lines, request.context.constraints.len() > 0, constraint_line);
    join_lines(&lines, "\n")
}

} // verus!
