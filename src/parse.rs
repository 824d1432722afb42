use vstd::prelude::*;

use crate::models::{invoice_of, Invoice, InvoiceView, Payment, PaymentView};
use crate::text::{
    byte_len, bytes_between, chars_of, decimal, decimal_string, find, find_from, occurs_at, split,
    split_on, trim, trimmed,
};

verus! {

/// A field of an invoice that a format captures.
#[derive(Clone, Copy, Debug, PartialEq, Eq, Structural)]
pub enum Field {
    Sirname,
    Name,
    Date,
    Number,
    Total,
}

/// One instruction of an invoice format, applied at the current position.
pub enum Op {
    /// Move past the next occurrence of the text.
    SkipPast(&'static str),
    /// Capture the field up to the next occurrence of the delimiter, and move
    /// to the delimiter, or past it when the flag is set.
    Capture(Field, &'static str, bool),
    /// Move past spaces, and past line breaks too when the flag is set.
    SkipBlanks(bool),
}

pub enum OpView {
    SkipPast(Seq<char>),
    Capture(Field, Seq<char>, bool),
    SkipBlanks(bool),
}

impl View for Op {
    type V = OpView;

    open spec fn view(&self) -> OpView {
        match self {
            Op::SkipPast(p) => OpView::SkipPast(p@),
            Op::Capture(f, p, consume) => OpView::Capture(*f, p@, *consume),
            Op::SkipBlanks(newlines) => OpView::SkipBlanks(*newlines),
        }
    }
}

pub open spec fn ops_view(ops: Seq<Op>) -> Seq<OpView> {
    ops.map_values(|op: Op| op@)
}

/// Where each field was captured: a start and an end position.
#[derive(Clone, Copy)]
pub struct Spans {
    pub sirname: (usize, usize),
    pub name: (usize, usize),
    pub date: (usize, usize),
    pub number: (usize, usize),
    pub total: (usize, usize),
}

/// No field captured yet: every field is empty.
pub open spec fn no_spans() -> Spans {
    Spans { sirname: (0, 0), name: (0, 0), date: (0, 0), number: (0, 0), total: (0, 0) }
}

pub open spec fn with_span(spans: Spans, f: Field, span: (usize, usize)) -> Spans {
    match f {
        Field::Sirname => Spans { sirname: span, ..spans },
        Field::Name => Spans { name: span, ..spans },
        Field::Date => Spans { date: span, ..spans },
        Field::Number => Spans { number: span, ..spans },
        Field::Total => Spans { total: span, ..spans },
    }
}

pub open spec fn span_in(span: (usize, usize), len: int) -> bool {
    span.0 <= span.1 <= len
}

pub open spec fn spans_in(spans: Spans, len: int) -> bool {
    span_in(spans.sirname, len) && span_in(spans.name, len) && span_in(spans.date, len)
        && span_in(spans.number, len) && span_in(spans.total, len)
}

/// A blank for `SkipBlanks`.
pub open spec fn blank(c: char, newlines: bool) -> bool {
    c == ' ' || (newlines && c == '\n')
}

/// The first position at or after `pos` that holds no blank, or the end.
pub open spec fn blanks_end(s: Seq<char>, pos: int, newlines: bool) -> int
    decreases s.len() - pos,
{
    if pos < s.len() && blank(s[pos], newlines) {
        blanks_end(s, pos + 1, newlines)
    } else {
        pos
    }
}

/// The position and captures after one instruction, or `None` where its
/// text or delimiter does not occur.
pub open spec fn step(s: Seq<char>, op: OpView, pos: int, spans: Spans) -> Option<(int, Spans)> {
    match op {
        OpView::SkipPast(p) => match find_from(s, p, pos) {
            Some(i) => Some((i + p.len(), spans)),
            None => None,
        },
        OpView::Capture(f, delim, consume) => match find_from(s, delim, pos) {
            Some(i) => Some(
                (
                    if consume {
                        i + delim.len()
                    } else {
                        i
                    },
                    with_span(spans, f, (pos as usize, i as usize)),
                ),
            ),
            None => None,
        },
        OpView::SkipBlanks(newlines) => Some((blanks_end(s, pos, newlines), spans)),
    }
}

/// The captures after the instructions in turn, or `None` where one fails.
pub open spec fn run_ops(s: Seq<char>, ops: Seq<OpView>, pos: int, spans: Spans) -> Option<Spans>
    decreases ops.len(),
{
    if ops.len() == 0 {
        Some(spans)
    } else {
        match step(s, ops[0], pos, spans) {
            Some((next, captured)) => run_ops(s, ops.drop_first(), next, captured),
            None => None,
        }
    }
}

/// Where the instructions stop when one of them fails: the position it was
/// applied at, and the instruction.
pub open spec fn failure_point(s: Seq<char>, ops: Seq<OpView>, pos: int, spans: Spans) -> (int, OpView)
    decreases ops.len(),
{
    if ops.len() == 0 {
        (pos, OpView::SkipBlanks(false))
    } else {
        match step(s, ops[0], pos, spans) {
            Some((next, captured)) => failure_point(s, ops.drop_first(), next, captured),
            None => (pos, ops[0]),
        }
    }
}

/// The delimiter an instruction looks for.
pub open spec fn delimiter_of(op: OpView) -> Seq<char> {
    match op {
        OpView::SkipPast(p) => p,
        OpView::Capture(_, d, _) => d,
        OpView::SkipBlanks(_) => Seq::empty(),
    }
}

/// What a search for a delimiter reports when it fails at `pos`. Where the
/// delimiter is longer, in UTF-8 bytes, than what is left of the text, more
/// input is needed: the bytes consumed so far plus the delimiter's, or an
/// unknown amount where that does not fit a `usize`. Otherwise the delimiter
/// does not occur, and the error names the search: up to the delimiter, or up
/// to it and past it.
pub open spec fn failure_text(s: Seq<char>, pos: int, op: OpView) -> Seq<char> {
    let delimiter = delimiter_of(op);
    if byte_len(delimiter) > byte_len(s.subrange(pos, s.len() as int)) {
        let needed = byte_len(s.subrange(0, pos)) + byte_len(delimiter);
        if needed > usize::MAX {
            "Needed Unknown"@
        } else {
            "Needed Size("@ + decimal(needed) + ")"@
        }
    } else if op matches OpView::Capture(_, _, false) {
        "Err TakeUntil"@
    } else {
        "Err TakeUntilAndConsume"@
    }
}

/// What a layout that does not fit `s` reports.
pub open spec fn layout_failure(s: Seq<char>, ops: Seq<OpView>) -> Seq<char> {
    let (pos, op) = failure_point(s, ops, 0, no_spans());
    failure_text(s, pos, op)
}

/// Says what the instruction `op`, failed at `pos`, reports.
fn describe_failure(s: &Vec<char>, pos: usize, op: &Op) -> (r: String)
    requires
        pos <= s@.len(),
    ensures
        r@ == failure_text(s@, pos as int, op@),
{
    let delimiter = match op {
        Op::SkipPast(p) => chars_of(p),
        Op::Capture(_, d, _) => chars_of(d),
        Op::SkipBlanks(_) => Vec::new(),
    };
    assert(delimiter@ == delimiter_of(op@));
    assert(delimiter@.subrange(0, delimiter@.len() as int) == delimiter@);
    let wanted = bytes_between(&delimiter, 0, delimiter.len());
    let left = bytes_between(s, pos, s.len());
    if wanted > left {
        let needed = bytes_between(s, 0, pos) + wanted;
        if needed > usize::MAX as u128 {
            String::from_str("Needed Unknown")
        } else {
            let mut r = String::from_str("Needed Size(");
            let digits = decimal_string(needed);
            r.append(digits.as_str());
            r.append(")");
            r
        }
    } else {
        match op {
            Op::Capture(_, _, false) => String::from_str("Err TakeUntil"),
            _ => String::from_str("Err TakeUntilAndConsume"),
        }
    }
}

pub proof fn lemma_find_from_found(s: Seq<char>, pat: Seq<char>, from: int)
    ensures
        find_from(s, pat, from) matches Some(i) ==> from <= i && occurs_at(s, pat, i),
    decreases s.len() + 1 - from,
{
    if !(from < 0 || from + pat.len() > s.len()) && !occurs_at(s, pat, from) {
        lemma_find_from_found(s, pat, from + 1);
    }
}

/// Moves past blanks from `pos`.
fn skip_blanks(s: &Vec<char>, pos: usize, newlines: bool) -> (r: usize)
    requires
        pos <= s@.len(),
    ensures
        r == blanks_end(s@, pos as int, newlines),
        pos <= r <= s@.len(),
{
    let mut i = pos;
    while i < s.len() && (s[i] == ' ' || (newlines && s[i] == '\n'))
        invariant
            pos <= i <= s@.len(),
            blanks_end(s@, pos as int, newlines) == blanks_end(s@, i as int, newlines),
        decreases s@.len() - i,
    {
        i = i + 1;
    }
    i
}

/// Applies one instruction at `pos`.
fn apply(s: &Vec<char>, op: &Op, pos: usize, spans: Spans) -> (r: Option<(usize, Spans)>)
    requires
        pos <= s@.len(),
        spans_in(spans, s@.len() as int),
    ensures
        match r {
            Some((next, captured)) => {
                &&& step(s@, op@, pos as int, spans) == Some((next as int, captured))
                &&& next <= s@.len()
                &&& spans_in(captured, s@.len() as int)
            },
            None => step(s@, op@, pos as int, spans) is None,
        },
{
    let n = s.len();
    match op {
        Op::SkipPast(p) => {
            let pat = chars_of(p);
            match find(s, &pat, pos) {
                Some(i) => {
                    proof {
                        lemma_find_from_found(s@, pat@, pos as int);
                    }
                    Some((i + pat.len(), spans))
                },
                None => None,
            }
        },
        Op::Capture(f, p, consume) => {
            let pat = chars_of(p);
            match find(s, &pat, pos) {
                Some(i) => {
                    proof {
                        lemma_find_from_found(s@, pat@, pos as int);
                    }
                    let next = if *consume {
                        i + pat.len()
                    } else {
                        i
                    };
                    Some((next, with_span_exec(spans, *f, (pos, i))))
                },
                None => None,
            }
        },
        Op::SkipBlanks(newlines) => Some((skip_blanks(s, pos, *newlines), spans)),
    }
}

fn with_span_exec(spans: Spans, f: Field, span: (usize, usize)) -> (r: Spans)
    ensures
        r == with_span(spans, f, span),
{
    match f {
        Field::Sirname => Spans { sirname: span, ..spans },
        Field::Name => Spans { name: span, ..spans },
        Field::Date => Spans { date: span, ..spans },
        Field::Number => Spans { number: span, ..spans },
        Field::Total => Spans { total: span, ..spans },
    }
}

/// Captures a field up to the first space, and the next up to the line break.
pub open spec fn name_line_ops() -> Seq<OpView> {
    seq![
        OpView::SkipPast("Name/Vorname"@),
        OpView::SkipPast("Name/Vorname"@),
        OpView::SkipPast("\n"@),
        OpView::SkipPast("\n"@),
        OpView::Capture(Field::Sirname, " "@, false),
        OpView::SkipBlanks(false),
        OpView::Capture(Field::Name, "\n"@, false),
    ]
}

/// The layout with a date and a total, and no invoice number.
pub open spec fn dated_layout() -> Seq<OpView> {
    name_line_ops() + seq![
        OpView::SkipPast("Rechnungsdatum:"@),
        OpView::SkipPast("\n"@),
        OpView::Capture(Field::Date, "\n"@, true),
        OpView::SkipPast("otal"@),
        OpView::SkipPast("CHF"@),
        OpView::SkipBlanks(true),
        OpView::Capture(Field::Total, "\n"@, true),
    ]
}

/// The layout with the invoice number in a section of its own after the date.
pub open spec fn numbered_layout() -> Seq<OpView> {
    name_line_ops() + seq![
        OpView::SkipPast("Rechnungsdatum:"@),
        OpView::SkipPast("\n"@),
        OpView::Capture(Field::Date, "\n"@, true),
        OpView::SkipPast("Rechnungs-Nr"@),
        OpView::SkipPast("\n"@),
        OpView::Capture(Field::Number, "\n"@, true),
        OpView::SkipPast("otal"@),
        OpView::SkipPast("CHF\n"@),
        OpView::Capture(Field::Total, "\n"@, true),
    ]
}

/// The layout with date and invoice number under one shared heading.
pub open spec fn shared_heading_layout() -> Seq<OpView> {
    name_line_ops() + seq![
        OpView::SkipPast("Rechnungsdatum: Rechnungs-Nr"@),
        OpView::SkipPast("\n"@),
        OpView::Capture(Field::Date, "\n"@, true),
        OpView::Capture(Field::Number, "\n"@, true),
        OpView::SkipPast("otal"@),
        OpView::SkipPast("CHF\n"@),
        OpView::Capture(Field::Total, "\n"@, true),
    ]
}

fn name_line() -> (r: Vec<Op>)
    ensures
        ops_view(r@) == name_line_ops(),
{
    let r = vec![
        Op::SkipPast("Name/Vorname"),
        Op::SkipPast("Name/Vorname"),
        Op::SkipPast("\n"),
        Op::SkipPast("\n"),
        Op::Capture(Field::Sirname, " ", false),
        Op::SkipBlanks(false),
        Op::Capture(Field::Name, "\n", false),
    ];
    assert(ops_view(r@) =~= name_line_ops());
    r
}

/// Appends `tail` to `ops`.
fn extend(head: Vec<Op>, tail: Vec<Op>) -> (r: Vec<Op>)
    ensures
        ops_view(r@) == ops_view(head@) + ops_view(tail@),
{
    let ghost first = head@;
    let ghost second = tail@;
    let mut ops = head;
    let mut rest = tail;
    ops.append(&mut rest);
    assert(ops_view(ops@) =~= ops_view(first) + ops_view(second));
    ops
}

fn dated() -> (r: Vec<Op>)
    ensures
        ops_view(r@) == dated_layout(),
{
    let tail = vec![
        Op::SkipPast("Rechnungsdatum:"),
        Op::SkipPast("\n"),
        Op::Capture(Field::Date, "\n", true),
        Op::SkipPast("otal"),
        Op::SkipPast("CHF"),
        Op::SkipBlanks(true),
        Op::Capture(Field::Total, "\n", true),
    ];
    assert(ops_view(tail@) =~= dated_layout().skip(7));
    let r = extend(name_line(), tail);
    assert(ops_view(r@) =~= dated_layout());
    r
}

fn numbered() -> (r: Vec<Op>)
    ensures
        ops_view(r@) == numbered_layout(),
{
    let tail = vec![
        Op::SkipPast("Rechnungsdatum:"),
        Op::SkipPast("\n"),
        Op::Capture(Field::Date, "\n", true),
        Op::SkipPast("Rechnungs-Nr"),
        Op::SkipPast("\n"),
        Op::Capture(Field::Number, "\n", true),
        Op::SkipPast("otal"),
        Op::SkipPast("CHF\n"),
        Op::Capture(Field::Total, "\n", true),
    ];
    assert(ops_view(tail@) =~= numbered_layout().skip(7));
    let r = extend(name_line(), tail);
    assert(ops_view(r@) =~= numbered_layout());
    r
}

fn shared_heading() -> (r: Vec<Op>)
    ensures
        ops_view(r@) == shared_heading_layout(),
{
    let tail = vec![
        Op::SkipPast("Rechnungsdatum: Rechnungs-Nr"),
        Op::SkipPast("\n"),
        Op::Capture(Field::Date, "\n", true),
        Op::Capture(Field::Number, "\n", true),
        Op::SkipPast("otal"),
        Op::SkipPast("CHF\n"),
        Op::Capture(Field::Total, "\n", true),
    ];
    assert(ops_view(tail@) =~= shared_heading_layout().skip(7));
    let r = extend(name_line(), tail);
    assert(ops_view(r@) =~= shared_heading_layout());
    r
}

/// Runs the instructions of a layout over `s` from its start.
///
/// Where an instruction fails, gives what the failure reports.
pub fn run_layout(s: &Vec<char>, ops: &Vec<Op>) -> (r: Result<Spans, String>)
    ensures
        match r {
            Ok(spans) => {
                &&& run_ops(s@, ops_view(ops@), 0, no_spans()) == Some(spans)
                &&& spans_in(spans, s@.len() as int)
            },
            Err(m) => {
                &&& run_ops(s@, ops_view(ops@), 0, no_spans()) is None
                &&& m@ == layout_failure(s@, ops_view(ops@))
            },
        },
{
    let ghost all = ops_view(ops@);
    let mut pos: usize = 0;
    let mut spans = Spans { sirname: (0, 0), name: (0, 0), date: (0, 0), number: (0, 0), total: (0, 0) };
    let mut i: usize = 0;
    assert(all.subrange(0, all.len() as int) == all);
    while i < ops.len()
        invariant
            all == ops_view(ops@),
            i <= ops@.len(),
            pos <= s@.len(),
            spans_in(spans, s@.len() as int),
            run_ops(s@, all, 0, no_spans()) == run_ops(
                s@,
                all.subrange(i as int, all.len() as int),
                pos as int,
                spans,
            ),
            failure_point(s@, all, 0, no_spans()) == failure_point(
                s@,
                all.subrange(i as int, all.len() as int),
                pos as int,
                spans,
            ),
        decreases ops@.len() - i,
    {
        let ghost rest = all.subrange(i as int, all.len() as int);
        assert(rest.drop_first() == all.subrange(i + 1, all.len() as int));
        assert(rest[0] == ops@[i as int]@);
        match apply(s, &ops[i], pos, spans) {
            Some((next, captured)) => {
                pos = next;
                spans = captured;
            },
            None => {
                return Err(describe_failure(s, pos, &ops[i]));
            },
        }
        i = i + 1;
    }
    Ok(spans)
}

/// The captures of the first layout that fits `s`, trying the shared
/// heading layout, then the numbered one, then the dated one.
pub open spec fn invoice_spans(s: Seq<char>) -> Option<Spans> {
    match run_ops(s, shared_heading_layout(), 0, no_spans()) {
        Some(spans) => Some(spans),
        None => match run_ops(s, numbered_layout(), 0, no_spans()) {
            Some(spans) => Some(spans),
            None => run_ops(s, dated_layout(), 0, no_spans()),
        },
    }
}

pub open spec fn text_in(s: Seq<char>, span: (usize, usize)) -> Seq<char> {
    s.subrange(span.0 as int, span.1 as int)
}

/// The invoice made of the captured fields.
pub open spec fn invoice_in(s: Seq<char>, spans: Spans) -> InvoiceView {
    invoice_of(
        text_in(s, spans.sirname),
        text_in(s, spans.name),
        text_in(s, spans.date),
        text_in(s, spans.number),
        text_in(s, spans.total),
    )
}

/// Reads an invoice from the text of an invoice document. Where none of the
/// known layouts fits the text, it fails with what the last layout tried,
/// the dated one, reports.
pub fn parse_invoice(buf: String) -> (r: Result<Invoice, String>)
    ensures
        match invoice_spans(buf@) {
            Some(spans) => r matches Ok(invoice) && invoice@ == invoice_in(buf@, spans),
            None => r matches Err(m) && m@ == layout_failure(buf@, dated_layout()),
        },
{
    let s = chars_of(buf.as_str());
    let found = match run_layout(&s, &shared_heading()) {
        Ok(sp) => Ok(sp),
        Err(_) => match run_layout(&s, &numbered()) {
            Ok(sp) => Ok(sp),
            Err(_) => run_layout(&s, &dated()),
        },
    };
    match found {
        Ok(sp) => {
            let text = buf.as_str();
            Ok(
                Invoice::new(
                    text.substring_char(sp.sirname.0, sp.sirname.1),
                    text.substring_char(sp.name.0, sp.name.1),
                    text.substring_char(sp.date.0, sp.date.1),
                    text.substring_char(sp.number.0, sp.number.1),
                    text.substring_char(sp.total.0, sp.total.1),
                ),
            )
        },
        Err(m) => Err(m),
    }
}

/// The cells of one line of a payments export, each trimmed of white space.
pub open spec fn cells_of(line: Seq<char>) -> Seq<Seq<char>> {
    split_on(line, ';').map_values(|c: Seq<char>| trimmed(c))
}

/// The payment in a line's first six cells: date, number, an unused cell,
/// subject, invoice number and amount.
pub open spec fn payment_in(cells: Seq<Seq<char>>) -> PaymentView {
    PaymentView {
        date: cells[0],
        number: cells[1],
        unused: cells[2],
        subject: cells[3],
        invoice_number: cells[4],
        amount: cells[5],
    }
}

/// One payment for each line of at least six cells, in order; shorter lines
/// are passed over.
pub open spec fn payments_in(lines: Seq<Seq<char>>) -> Seq<PaymentView>
    decreases lines.len(),
{
    if lines.len() == 0 {
        seq![]
    } else {
        let before = payments_in(lines.drop_last());
        let cells = cells_of(lines.last());
        if cells.len() >= 6 {
            before.push(payment_in(cells))
        } else {
            before
        }
    }
}

/// The trimmed cells of one line.
fn line_cells(line: &str) -> (r: Vec<String>)
    ensures
        r@.map_values(|c: String| c@) == cells_of(line@),
{
    let raw = split(line, ';');
    let mut cells: Vec<String> = Vec::new();
    let mut i: usize = 0;
    while i < raw.len()
        invariant
            i <= raw@.len(),
            raw@.map_values(|c: String| c@) == split_on(line@, ';'),
            cells@.map_values(|c: String| c@) =~= cells_of(line@).take(i as int),
        decreases raw@.len() - i,
    {
        let ghost before = cells@;
        cells.push(trim(raw[i].as_str()));
        assert(raw@.map_values(|c: String| c@)[i as int] == raw@[i as int]@);
        assert(cells@.map_values(|c: String| c@) =~= before.map_values(|c: String| c@).push(
            trimmed(raw@[i as int]@),
        ));
        i = i + 1;
    }
    cells
}

/// Reads the payments of a payments export: one for each line with at least
/// six `;`-separated cells, whose cells are trimmed of white space.
pub fn parse_payments(buf: String) -> (r: Result<Vec<Payment>, String>)
    ensures
        r matches Ok(payments) && payments@.map_values(|p: Payment| p@) == payments_in(
            split_on(buf@, '\n'),
        ),
{
    let lines = split(buf.as_str(), '\n');
    let ghost all = split_on(buf@, '\n');
    let mut results: Vec<Payment> = Vec::new();
    let mut i: usize = 0;
    assert(all.take(0) =~= seq![]);
    while i < lines.len()
        invariant
            i <= lines@.len(),
            lines@.map_values(|l: String| l@) == all,
            results@.map_values(|p: Payment| p@) == payments_in(all.take(i as int)),
        decreases lines@.len() - i,
    {
        let ghost before = results@;
        let ghost taken = all.take(i + 1);
        assert(taken.drop_last() =~= all.take(i as int));
        assert(taken.last() == lines@[i as int]@);
        let cells = line_cells(lines[i].as_str());
        if cells.len() >= 6 {
            proof {
                let m = cells@.map_values(|c: String| c@);
                assert(m[0] == cells@[0]@ && m[1] == cells@[1]@ && m[2] == cells@[2]@);
                assert(m[3] == cells@[3]@ && m[4] == cells@[4]@ && m[5] == cells@[5]@);
            }
            results.push(
                Payment::new(
                    cells[0].as_str(),
                    cells[1].as_str(),
                    cells[2].as_str(),
                    cells[3].as_str(),
                    cells[4].as_str(),
                    cells[5].as_str(),
                ),
            );
            assert(results@.map_values(|p: Payment| p@) =~= before.map_values(|p: Payment| p@).push(
                payment_in(cells_of(taken.last())),
            ));
        }
        i = i + 1;
    }
    assert(all.take(lines@.len() as int) =~= all);
    Ok(results)
}

} // verus!
