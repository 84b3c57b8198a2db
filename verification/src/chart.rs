//! Rendering of bar charts as Pango markup: one coloured glyph per reading.

use vstd::prelude::*;

verus! {

/// The characters of each string in a slice of string slices.
pub open spec fn views(s: Seq<&str>) -> Seq<Seq<char>> {
    s.map_values(|x: &str| x@)
}

/// One bar: `<span color='COLOR'>SYMBOL</span>`.
pub open spec fn span(color: Seq<char>, symbol: Seq<char>) -> Seq<char> {
    "<span color='"@ + color + "'>"@ + symbol + "</span>"@
}

/// Appends one bar to `out`.
pub fn push_span(out: &mut String, color: &str, symbol: &str)
    ensures
        final(out)@ == old(out)@ + span(color@, symbol@),
{
    out.append("<span color='");
    out.append(color);
    out.append("'>");
    out.append(symbol);
    out.append("</span>");
}

/// The bars of a chart whose readings are already turned into glyph levels.
pub open spec fn bars(levels: Seq<usize>, symbols: Seq<Seq<char>>, colors: Seq<Seq<char>>) -> Seq<
    char,
>
    decreases levels.len(),
{
    if levels.len() == 0 {
        seq![]
    } else {
        bars(levels.drop_last(), symbols, colors) + span(
            colors[levels.last() as int],
            symbols[levels.last() as int],
        )
    }
}

/// Every level picks a glyph and a colour that exist.
pub open spec fn levels_in_range(levels: Seq<usize>, n_symbols: nat, n_colors: nat) -> bool {
    forall|i: int| 0 <= i < levels.len() ==> levels[i] < n_symbols && levels[i] < n_colors
}

/// The font span that some charts are wrapped in.
pub open spec fn graph_font_open() -> Seq<char> {
    "<span font-family='efe-graph' rise='-4444'>"@
}

/// A single chart: the bars, wrapped in the graph font span when `framed`.
pub open spec fn single_chart(
    levels: Seq<usize>,
    symbols: Seq<Seq<char>>,
    colors: Seq<Seq<char>>,
    framed: bool,
) -> Seq<char> {
    if framed {
        graph_font_open() + bars(levels, symbols, colors) + "</span>"@
    } else {
        bars(levels, symbols, colors)
    }
}

/// Appends the bars of `levels` to `out`.
pub fn push_bars(out: &mut String, levels: &Vec<usize>, symbols: &[&str], colors: &[&str])
    requires
        levels_in_range(levels@, symbols@.len(), colors@.len()),
    ensures
        final(out)@ == old(out)@ + bars(levels@, views(symbols@), views(colors@)),
{
    let mut i: usize = 0;
    while i < levels.len()
        invariant
            i <= levels.len(),
            levels_in_range(levels@, symbols@.len(), colors@.len()),
            out@ == old(out)@ + bars(levels@.take(i as int), views(symbols@), views(colors@)),
        decreases levels.len() - i,
    {
        let level = levels[i];
        assert(levels@.take(i + 1).drop_last() == levels@.take(i as int));
        push_span(out, colors[level], symbols[level]);
        i += 1;
    }
    assert(levels@.take(levels.len() as int) == levels@);
}

/// The chart of a metric history, one glyph per reading: the string the graph
/// modules show. `levels[i]` is the glyph index of reading `i`; `framed` wraps
/// the bars in the graph font span.
pub fn get_single_chart(levels: &Vec<usize>, symbols: &[&str], colors: &[&str], framed: bool) -> (res:
    String)
    requires
        levels_in_range(levels@, symbols@.len(), colors@.len()),
    ensures
        res@ == single_chart(levels@, views(symbols@), views(colors@), framed),
{
    let mut chart = String::new();
    if framed {
        chart.append("<span font-family='efe-graph' rise='-4444'>");
    }
    push_bars(&mut chart, levels, symbols, colors);
    if framed {
        chart.append("</span>");
    }
    chart
}

/// The glyph level of a reading on a chart scaled to `max`, with `steps + 1`
/// glyphs: `(((stat * 100) / max) * steps) / 100`.
pub open spec fn scaled_level(stat: u64, max: u64, steps: u64) -> int {
    (((stat * 100) / (max as int)) * steps) / 100
}

/// Every reading can be scaled without overflow and lands on an existing glyph
/// and colour.
pub open spec fn scaled_in_range(
    stats: Seq<u64>,
    max: u64,
    steps: u64,
    n_symbols: nat,
    n_colors: nat,
) -> bool {
    forall|i: int|
        0 <= i < stats.len() ==> {
            &&& stats[i] * 100 <= u64::MAX
            &&& ((stats[i] * 100) / (max as int)) * steps <= u64::MAX
            &&& scaled_level(stats[i], max, steps) < n_symbols
            &&& scaled_level(stats[i], max, steps) < n_colors
        }
}

/// The bars of readings scaled to `max`.
pub open spec fn scaled_bars(
    stats: Seq<u64>,
    max: u64,
    steps: u64,
    symbols: Seq<Seq<char>>,
    colors: Seq<Seq<char>>,
) -> Seq<char>
    decreases stats.len(),
{
    if stats.len() == 0 {
        seq![]
    } else {
        let level = scaled_level(stats.last(), max, steps);
        scaled_bars(stats.drop_last(), max, steps, symbols, colors) + span(
            colors[level],
            symbols[level],
        )
    }
}

/// Appends the bars of `stats` scaled to `max`.
pub fn push_scaled_bars(
    out: &mut String,
    stats: &Vec<u64>,
    max: u64,
    steps: u64,
    symbols: &[&str],
    colors: &[&str],
)
    requires
        stats@.len() > 0 ==> max > 0,
        scaled_in_range(stats@, max, steps, symbols@.len(), colors@.len()),
    ensures
        final(out)@ == old(out)@ + scaled_bars(stats@, max, steps, views(symbols@), views(colors@)),
{
    let mut i: usize = 0;
    while i < stats.len()
        invariant
            i <= stats.len(),
            stats@.len() > 0 ==> max > 0,
            scaled_in_range(stats@, max, steps, symbols@.len(), colors@.len()),
            out@ == old(out)@ + scaled_bars(
                stats@.take(i as int),
                max,
                steps,
                views(symbols@),
                views(colors@),
            ),
        decreases stats.len() - i,
    {
        let stat = stats[i];
        assert(stats@.take(i + 1).drop_last() == stats@.take(i as int));
        let level = ((((stat * 100) / max) * steps) / 100) as usize;
        push_span(out, colors[level], symbols[level]);
        i += 1;
    }
    assert(stats@.take(stats.len() as int) == stats@);
}

/// Charting two runs of readings one after the other gives the bars of the
/// first run followed by the bars of the second.
pub proof fn lemma_scaled_bars_concat(
    a: Seq<u64>,
    b: Seq<u64>,
    max: u64,
    steps: u64,
    symbols: Seq<Seq<char>>,
    colors: Seq<Seq<char>>,
)
    ensures
        scaled_bars(a + b, max, steps, symbols, colors) == scaled_bars(a, max, steps, symbols, colors)
            + scaled_bars(b, max, steps, symbols, colors),
    decreases b.len(),
{
    if b.len() == 0 {
        assert(a + b == a);
    } else {
        lemma_scaled_bars_concat(a, b.drop_last(), max, steps, symbols, colors);
        assert((a + b).drop_last() == a + b.drop_last());
        assert((a + b).last() == b.last());
    }
}

} // verus!
