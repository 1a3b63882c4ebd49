//! The template compiler: turns a format string such as
//! `{method} {uri} -> {status}` into an ordered plan of format units.
use vstd::prelude::*;
use vstd::seq_lib::lemma_concat_associative;
use vstd::string::*;
use crate::style::{AttrRule, ColorRule, StyleTable, UnitStyle};

verus! {

/// The closed set of fields a placeholder can name.
#[derive(Clone, Copy, Debug, PartialEq, Eq, Structural)]
pub enum Field {
    Method,
    Uri,
    Status,
    ResponseTime,
    RequestTime,
    RemoteAddress,
}

/// Why a template was rejected.
#[derive(Clone, Copy, Debug, PartialEq, Eq, Structural)]
pub enum CompileError {
    /// A `{` without its `}`, a `}` without its `{`, or a `{` inside a placeholder.
    MalformedTemplate,
    /// A placeholder names no known field.
    UnknownField,
}

/// What one unit of a template shows, as a mathematical value.
pub enum Piece {
    Lit(Seq<char>),
    Hole(Field),
}

/// A format unit as a mathematical value.
pub struct UnitModel {
    pub piece: Piece,
    pub color: ColorRule,
    pub attrs: AttrRule,
}

/// The text source of one unit: verbatim text or a field.
#[derive(Clone, Debug)]
pub enum FormatText {
    Str(String),
    Field(Field),
}

/// One unit of a compiled format: its text source and its style rules.
#[derive(Clone, Debug)]
pub struct FormatUnit {
    pub text: FormatText,
    pub color: ColorRule,
    pub attrs: AttrRule,
}

/// A compiled format: units in template order, never changed after compiling.
#[derive(Clone, Debug)]
pub struct Format {
    units: Vec<FormatUnit>,
}

impl View for FormatText {
    type V = Piece;

    open spec fn view(&self) -> Piece {
        match self {
            FormatText::Str(s) => Piece::Lit(s@),
            FormatText::Field(f) => Piece::Hole(*f),
        }
    }
}

impl View for FormatUnit {
    type V = UnitModel;

    open spec fn view(&self) -> UnitModel {
        UnitModel { piece: self.text@, color: self.color, attrs: self.attrs }
    }
}

impl View for Format {
    type V = Seq<UnitModel>;

    closed spec fn view(&self) -> Seq<UnitModel> {
        self.units@.map_values(|u: FormatUnit| u@)
    }
}

impl Format {
    /// The units of the plan, in template order.
    pub fn units(&self) -> (r: &Vec<FormatUnit>)
        ensures
            r@.map_values(|u: FormatUnit| u@) == self@,
    {
        &self.units
    }
}

pub open spec fn is_marker(c: char) -> bool {
    c == '{' || c == '}'
}

/// The field a placeholder name stands for, if any (exact, case-sensitive).
pub open spec fn field_named(name: Seq<char>) -> Option<Field> {
    if name == "method"@ {
        Some(Field::Method)
    } else if name == "uri"@ {
        Some(Field::Uri)
    } else if name == "status"@ {
        Some(Field::Status)
    } else if name == "response-time"@ {
        Some(Field::ResponseTime)
    } else if name == "request-time"@ {
        Some(Field::RequestTime)
    } else if name == "remote-address"@ {
        Some(Field::RemoteAddress)
    } else {
        None
    }
}

/// Whether the markers of `s[i..]` pair up, `open` telling whether a `{` is pending.
pub open spec fn balanced_from(s: Seq<char>, i: int, open: bool) -> bool
    decreases s.len() - i,
{
    if i >= s.len() {
        !open
    } else if s[i] == '{' {
        !open && balanced_from(s, i + 1, true)
    } else if s[i] == '}' {
        open && balanced_from(s, i + 1, false)
    } else {
        balanced_from(s, i + 1, open)
    }
}

/// Every `{` is closed by a `}` before the next marker, and every `}` closes a `{`.
pub open spec fn balanced(s: Seq<char>) -> bool {
    balanced_from(s, 0, false)
}

/// The first marker at or after `i`, or the length of `s` if there is none.
pub open spec fn next_marker(s: Seq<char>, i: int) -> int
    decreases s.len() - i,
{
    if i >= s.len() {
        s.len() as int
    } else if is_marker(s[i]) {
        i
    } else {
        next_marker(s, i + 1)
    }
}

pub open spec fn lit_piece(s: Seq<char>, from: int, to: int) -> Seq<Piece> {
    if from < to {
        seq![Piece::Lit(s.subrange(from, to))]
    } else {
        Seq::empty()
    }
}

/// `acc` followed by the pieces of `r`, errors passing through.
pub open spec fn join(acc: Seq<Piece>, r: Result<Seq<Piece>, CompileError>) -> Result<
    Seq<Piece>,
    CompileError,
> {
    match r {
        Ok(p) => Ok(acc + p),
        Err(e) => Err(e),
    }
}

/// The pieces of `s[i..]`, where the current literal run began at `start`.
pub open spec fn pieces_from(s: Seq<char>, i: int, start: int) -> Result<Seq<Piece>, CompileError>
    decreases s.len() - i,
{
    if i >= s.len() {
        Ok(lit_piece(s, start, s.len() as int))
    } else if s[i] == '}' {
        Err(CompileError::MalformedTemplate)
    } else if s[i] == '{' {
        let j = next_marker(s, i + 1);
        if j <= i || j >= s.len() || s[j] == '{' {
            Err(CompileError::MalformedTemplate)
        } else {
            match field_named(s.subrange(i + 1, j)) {
                None => Err(CompileError::UnknownField),
                Some(f) => join(lit_piece(s, start, i).push(Piece::Hole(f)), pieces_from(s, j + 1, j + 1)),
            }
        }
    } else {
        pieces_from(s, i + 1, start)
    }
}

/// The pieces of a template: literal runs (maximal, never empty) and fields, in order.
pub open spec fn pieces_of(s: Seq<char>) -> Result<Seq<Piece>, CompileError> {
    if !balanced(s) {
        Err(CompileError::MalformedTemplate)
    } else {
        pieces_from(s, 0, 0)
    }
}

pub open spec fn style_for(t: StyleTable, p: Piece) -> UnitStyle {
    match p {
        Piece::Lit(_) => t.literal,
        Piece::Hole(Field::Method) => t.method,
        Piece::Hole(Field::Uri) => t.uri,
        Piece::Hole(Field::Status) => t.status,
        Piece::Hole(Field::ResponseTime) => t.response_time,
        Piece::Hole(Field::RequestTime) => t.request_time,
        Piece::Hole(Field::RemoteAddress) => t.remote_address,
    }
}

pub open spec fn styled(t: StyleTable, p: Piece) -> UnitModel {
    UnitModel { piece: p, color: style_for(t, p).color, attrs: style_for(t, p).attrs }
}

/// What compiling `s` with table `t` gives.
pub open spec fn compile_spec(s: Seq<char>, t: StyleTable) -> Result<Seq<UnitModel>, CompileError> {
    match pieces_of(s) {
        Ok(p) => Ok(p.map_values(|x: Piece| styled(t, x))),
        Err(e) => Err(e),
    }
}

proof fn lemma_next_marker(s: Seq<char>, i: int)
    requires
        0 <= i <= s.len(),
    ensures
        i <= next_marker(s, i) <= s.len(),
        next_marker(s, i) < s.len() ==> is_marker(s[next_marker(s, i)]),
        forall|k: int| i <= k < next_marker(s, i) ==> !is_marker(#[trigger] s[k]),
    decreases s.len() - i,
{
    if i < s.len() && !is_marker(s[i]) {
        lemma_next_marker(s, i + 1);
    }
}

/// The field a placeholder name stands for.
pub fn field_by_name(name: &str) -> (r: Option<Field>)
    ensures
        r == field_named(name@),
{
    let n = name.to_owned();
    if n == "method".to_owned() {
        Some(Field::Method)
    } else if n == "uri".to_owned() {
        Some(Field::Uri)
    } else if n == "status".to_owned() {
        Some(Field::Status)
    } else if n == "response-time".to_owned() {
        Some(Field::ResponseTime)
    } else if n == "request-time".to_owned() {
        Some(Field::RequestTime)
    } else if n == "remote-address".to_owned() {
        Some(Field::RemoteAddress)
    } else {
        None
    }
}

/// Whether the placeholder markers of `s` are balanced.
pub fn markers_balanced(s: &str) -> (r: bool)
    ensures
        r == balanced(s@),
{
    let n = s.unicode_len();
    let mut i: usize = 0;
    let mut open = false;
    while i < n
        invariant
            n == s@.len(),
            i <= n,
            balanced_from(s@, 0, false) == balanced_from(s@, i as int, open),
        decreases n - i,
    {
        let c = s.get_char(i);
        if c == '{' {
            if open {
                return false;
            }
            open = true;
        } else if c == '}' {
            if !open {
                return false;
            }
            open = false;
        }
        i = i + 1;
    }
    !open
}

/// The style a table gives to a unit showing `text`.
pub fn style_of(t: &StyleTable, text: &FormatText) -> (r: UnitStyle)
    ensures
        r == style_for(*t, text@),
{
    match text {
        FormatText::Str(_) => t.literal,
        FormatText::Field(Field::Method) => t.method,
        FormatText::Field(Field::Uri) => t.uri,
        FormatText::Field(Field::Status) => t.status,
        FormatText::Field(Field::ResponseTime) => t.response_time,
        FormatText::Field(Field::RequestTime) => t.request_time,
        FormatText::Field(Field::RemoteAddress) => t.remote_address,
    }
}

fn styled_unit(t: &StyleTable, text: FormatText) -> (r: FormatUnit)
    ensures
        r@ == styled(*t, text@),
{
    let st = style_of(t, &text);
    FormatUnit { text, color: st.color, attrs: st.attrs }
}

/// The outcome of a compilation, with the plan as its mathematical value.
pub open spec fn compile_result(r: Result<Format, CompileError>) -> Result<Seq<UnitModel>, CompileError> {
    match r {
        Ok(f) => Ok(f@),
        Err(e) => Err(e),
    }
}

/// The pieces of the default template `{method} {uri} -> {status} ({response-time} ms)`.
pub open spec fn default_pieces() -> Seq<Piece> {
    seq![
        Piece::Hole(Field::Method),
        Piece::Lit(" "@),
        Piece::Hole(Field::Uri),
        Piece::Lit(" -> "@),
        Piece::Hole(Field::Status),
        Piece::Lit(" ("@),
        Piece::Hole(Field::ResponseTime),
        Piece::Lit(" ms)"@),
    ]
}

proof fn lemma_join_assoc(a: Seq<Piece>, b: Seq<Piece>, r: Result<Seq<Piece>, CompileError>)
    ensures
        join(a, join(b, r)) == join(a + b, r),
{
    match r {
        Ok(p) => {
            assert(a + (b + p) =~= (a + b) + p);
        },
        Err(_) => {},
    }
}

proof fn lemma_extend_units(
    before: Seq<FormatUnit>,
    after: Seq<FormatUnit>,
    acc: Seq<Piece>,
    b: Seq<Piece>,
    t: StyleTable,
)
    requires
        before.map_values(|u: FormatUnit| u@) == acc.map_values(|x: Piece| styled(t, x)),
        after.len() == before.len() + b.len(),
        forall|k: int| 0 <= k < before.len() ==> after[k] == before[k],
        forall|k: int| 0 <= k < b.len() ==> (#[trigger] after[before.len() + k])@ == styled(t, b[k]),
    ensures
        after.map_values(|u: FormatUnit| u@) == (acc + b).map_values(|x: Piece| styled(t, x)),
{
    let l = before.len() as int;
    let ma = after.map_values(|u: FormatUnit| u@);
    let mb = (acc + b).map_values(|x: Piece| styled(t, x));
    assert(before.map_values(|u: FormatUnit| u@).len() == acc.len());
    assert forall|k: int| 0 <= k < ma.len() implies ma[k] == mb[k] by {
        assert(ma[k] == after[k]@);
        assert(mb[k] == styled(t, (acc + b)[k]));
        if k < l {
            assert(before.map_values(|u: FormatUnit| u@)[k] == acc.map_values(|x: Piece| styled(t, x))[k]);
            assert(before.map_values(|u: FormatUnit| u@)[k] == before[k]@);
            assert(acc.map_values(|x: Piece| styled(t, x))[k] == styled(t, acc[k]));
        } else {
            let m = k - l;
            assert(after[before.len() + m]@ == styled(t, b[m]));
            assert((acc + b)[k] == b[m]);
        }
    }
    assert(ma =~= mb);
}

/// The first marker at or after `from`, or `n` if there is none.
fn find_marker(s: &str, n: usize, from: usize) -> (j: usize)
    requires
        n == s@.len(),
        from <= n,
    ensures
        j == next_marker(s@, from as int),
{
    let mut j = from;
    while j < n
        invariant
            from <= j <= n,
            n == s@.len(),
            next_marker(s@, from as int) == next_marker(s@, j as int),
        decreases n - j,
    {
        let c = s.get_char(j);
        if c == '{' || c == '}' {
            return j;
        }
        j = j + 1;
    }
    j
}

impl Format {
    /// Compiles a template, giving each unit the style that `t` assigns to what it shows.
    pub fn compile(s: &str, t: &StyleTable) -> (r: Result<Format, CompileError>)
        ensures
            compile_result(r) == compile_spec(s@, *t),
    {
        if !markers_balanced(s) {
            return Err(CompileError::MalformedTemplate);
        }
        let n = s.unicode_len();
        let mut units: Vec<FormatUnit> = Vec::new();
        let ghost mut acc: Seq<Piece> = Seq::empty();
        let mut i: usize = 0;
        let mut start: usize = 0;
        proof {
            assert(acc + pieces_from(s@, 0, 0)->Ok_0 =~= pieces_from(s@, 0, 0)->Ok_0);
            assert(units@.map_values(|u: FormatUnit| u@) =~= acc.map_values(|x: Piece| styled(*t, x)));
        }
        while i < n
            invariant
                n == s@.len(),
                start <= i <= n,
                balanced(s@),
                pieces_from(s@, 0, 0) == join(acc, pieces_from(s@, i as int, start as int)),
                units@.map_values(|u: FormatUnit| u@) == acc.map_values(|x: Piece| styled(*t, x)),
            decreases n - i,
        {
            let c = s.get_char(i);
            if c == '}' {
                return Err(CompileError::MalformedTemplate);
            }
            if c == '{' {
                let j = find_marker(s, n, i + 1);
                proof {
                    lemma_next_marker(s@, i + 1);
                }
                if j >= n || s.get_char(j) == '{' {
                    return Err(CompileError::MalformedTemplate);
                }
                let f = match field_by_name(s.substring_char(i + 1, j)) {
                    None => {
                        return Err(CompileError::UnknownField);
                    },
                    Some(f) => f,
                };
                let ghost b = lit_piece(s@, start as int, i as int).push(Piece::Hole(f));
                let ghost old_units = units@;
                if start < i {
                    let lit = FormatText::Str(s.substring_char(start, i).to_owned());
                    units.push(styled_unit(t, lit));
                }
                units.push(styled_unit(t, FormatText::Field(f)));
                proof {
                    lemma_join_assoc(acc, b, pieces_from(s@, j + 1, j + 1));
                    lemma_extend_units(old_units, units@, acc, b, *t);
                    acc = acc + b;
                }
                i = j + 1;
                start = j + 1;
            } else {
                i = i + 1;
            }
        }
        let ghost old_units = units@;
        if start < n {
            let lit = FormatText::Str(s.substring_char(start, n).to_owned());
            units.push(styled_unit(t, lit));
        }
        proof {
            let b = lit_piece(s@, start as int, n as int);
            lemma_extend_units(old_units, units@, acc, b, *t);
            acc = acc + b;
            assert(acc + Seq::<Piece>::empty() =~= acc);
        }
        let r = Format { units };
        assert(r@ == units@.map_values(|u: FormatUnit| u@));
        Ok(r)
    }

    /// Compiles a template with every unit unstyled.
    pub fn new(s: &str) -> (r: Result<Format, CompileError>)
        ensures
            compile_result(r) == compile_spec(s@, StyleTable::plain_spec()),
    {
        Format::compile(s, &StyleTable::plain())
    }

    /// The default format, `{method} {uri} -> {status} ({response-time} ms)`,
    /// styled by `t`.
    pub fn default_styled(t: &StyleTable) -> (r: Format)
        ensures
            r@ == default_pieces().map_values(|x: Piece| styled(*t, x)),
    {
        let mut units: Vec<FormatUnit> = Vec::new();
        units.push(styled_unit(t, FormatText::Field(Field::Method)));
        units.push(styled_unit(t, FormatText::Str(" ".to_owned())));
        units.push(styled_unit(t, FormatText::Field(Field::Uri)));
        units.push(styled_unit(t, FormatText::Str(" -> ".to_owned())));
        units.push(styled_unit(t, FormatText::Field(Field::Status)));
        units.push(styled_unit(t, FormatText::Str(" (".to_owned())));
        units.push(styled_unit(t, FormatText::Field(Field::ResponseTime)));
        units.push(styled_unit(t, FormatText::Str(" ms)".to_owned())));
        let r = Format { units };
        assert(r@ =~= default_pieces().map_values(|x: Piece| styled(*t, x)));
        r
    }
}

impl Default for Format {
    /// The default format with every unit unstyled.
    fn default() -> (r: Format)
        ensures
            r@ == default_pieces().map_values(|x: Piece| styled(StyleTable::plain_spec(), x)),
    {
        Format::default_styled(&StyleTable::plain())
    }
}

/// Compiling is deterministic: two compilations of the same template with the
/// same table give equal plans, or the same error.
pub proof fn compile_is_deterministic(
    s: Seq<char>,
    t: StyleTable,
    r1: Result<Format, CompileError>,
    r2: Result<Format, CompileError>,
)
    requires
        compile_result(r1) == compile_spec(s, t),
        compile_result(r2) == compile_spec(s, t),
    ensures
        compile_result(r1) == compile_result(r2),
{
}

proof fn lemma_open_without_close(s: Seq<char>, j: int)
    requires
        0 <= j <= s.len(),
        forall|k: int| j <= k < s.len() ==> s[k] != '}',
    ensures
        !balanced_from(s, j, true),
    decreases s.len() - j,
{
    if j < s.len() && s[j] != '{' {
        lemma_open_without_close(s, j + 1);
    }
}

proof fn lemma_unbalanced_later(s: Seq<char>, k: int, i: int, open: bool)
    requires
        0 <= k <= i <= s.len(),
        forall|o: bool| !balanced_from(s, i, o),
    ensures
        !balanced_from(s, k, open),
    decreases i - k,
{
    if k < i {
        lemma_unbalanced_later(s, k + 1, i, true);
        lemma_unbalanced_later(s, k + 1, i, false);
    }
}

/// A template whose markers do not pair up fails with `MalformedTemplate`.
pub proof fn unbalanced_is_malformed(s: Seq<char>, t: StyleTable)
    requires
        !balanced(s),
    ensures
        compile_spec(s, t) == Err::<Seq<UnitModel>, CompileError>(CompileError::MalformedTemplate),
{
}

/// A `{` with no `}` anywhere after it fails with `MalformedTemplate`.
pub proof fn unterminated_is_malformed(s: Seq<char>, t: StyleTable, i: int)
    requires
        0 <= i < s.len(),
        s[i] == '{',
        forall|k: int| i < k < s.len() ==> s[k] != '}',
    ensures
        compile_spec(s, t) == Err::<Seq<UnitModel>, CompileError>(CompileError::MalformedTemplate),
{
    lemma_open_without_close(s, i + 1);
    assert forall|o: bool| !balanced_from(s, i, o) by {}
    lemma_unbalanced_later(s, 0, i, false);
}

/// A `}` with no `{` anywhere before it fails with `MalformedTemplate`.
pub proof fn unopened_is_malformed(s: Seq<char>, t: StyleTable, i: int)
    requires
        0 <= i < s.len(),
        s[i] == '}',
        forall|k: int| 0 <= k < i ==> s[k] != '{',
    ensures
        compile_spec(s, t) == Err::<Seq<UnitModel>, CompileError>(CompileError::MalformedTemplate),
{
    lemma_closed_until(s, 0, i);
}

proof fn lemma_closed_until(s: Seq<char>, k: int, i: int)
    requires
        0 <= k <= i < s.len(),
        s[i] == '}',
        forall|m: int| 0 <= m < i ==> s[m] != '{',
    ensures
        !balanced_from(s, k, false),
    decreases i - k,
{
    if k < i {
        lemma_closed_until(s, k + 1, i);
    }
}

/// In a balanced tail that begins with an open placeholder, the next marker is
/// its `}`, and what follows is balanced.
proof fn lemma_open_closes(s: Seq<char>, q: int)
    requires
        0 <= q <= s.len(),
        balanced_from(s, q, true),
    ensures
        next_marker(s, q) < s.len(),
        s[next_marker(s, q)] == '}',
        balanced_from(s, next_marker(s, q) + 1, false),
    decreases s.len() - q,
{
    if q < s.len() && s[q] != '{' && s[q] != '}' {
        lemma_next_marker_skip(s, q);
        lemma_open_closes(s, q + 1);
    }
}

proof fn lemma_next_marker_skip(s: Seq<char>, q: int)
    requires
        0 <= q < s.len(),
        !is_marker(s[q]),
    ensures
        next_marker(s, q) == next_marker(s, q + 1),
{
}

proof fn lemma_unknown_from(s: Seq<char>, p: int, start: int, i: int)
    requires
        0 <= p <= i < s.len(),
        balanced_from(s, p, false),
        s[i] == '{',
        next_marker(s, i + 1) < s.len(),
        s[next_marker(s, i + 1)] == '}',
        field_named(s.subrange(i + 1, next_marker(s, i + 1))) is None,
    ensures
        pieces_from(s, p, start) == Err::<Seq<Piece>, CompileError>(CompileError::UnknownField),
    decreases s.len() - p,
{
    if s[p] == '{' {
        lemma_open_closes(s, p + 1);
        lemma_next_marker(s, p + 1);
        let j = next_marker(s, p + 1);
        if p < i {
            assert(j <= i);
            lemma_unknown_from(s, j + 1, j + 1, i);
        }
    } else if s[p] != '}' {
        lemma_unknown_from(s, p + 1, start, i);
    }
}

/// A balanced template with a placeholder that names no known field fails
/// with `UnknownField`.
pub proof fn unknown_name_is_rejected(s: Seq<char>, t: StyleTable, i: int)
    requires
        balanced(s),
        0 <= i < s.len(),
        s[i] == '{',
        next_marker(s, i + 1) < s.len(),
        s[next_marker(s, i + 1)] == '}',
        field_named(s.subrange(i + 1, next_marker(s, i + 1))) is None,
    ensures
        compile_spec(s, t) == Err::<Seq<UnitModel>, CompileError>(CompileError::UnknownField),
{
    lemma_unknown_from(s, 0, 0, i);
}

/// The placeholder name of a field.
pub open spec fn field_name(f: Field) -> Seq<char> {
    match f {
        Field::Method => "method"@,
        Field::Uri => "uri"@,
        Field::Status => "status"@,
        Field::ResponseTime => "response-time"@,
        Field::RequestTime => "request-time"@,
        Field::RemoteAddress => "remote-address"@,
    }
}

/// How a piece is written in a template.
pub open spec fn piece_source(p: Piece) -> Seq<char> {
    match p {
        Piece::Lit(t) => t,
        Piece::Hole(f) => seq!['{'] + field_name(f) + seq!['}'],
    }
}

/// The template text that a sequence of pieces spells out, in order.
pub open spec fn pieces_source(ps: Seq<Piece>) -> Seq<char>
    decreases ps.len(),
{
    if ps.len() == 0 {
        Seq::empty()
    } else {
        piece_source(ps[0]) + pieces_source(ps.drop_first())
    }
}

proof fn lemma_pieces_source_concat(a: Seq<Piece>, b: Seq<Piece>)
    ensures
        pieces_source(a + b) == pieces_source(a) + pieces_source(b),
    decreases a.len(),
{
    if a.len() == 0 {
        assert(a + b =~= b);
    } else {
        lemma_pieces_source_concat(a.drop_first(), b);
        assert((a + b).drop_first() =~= a.drop_first() + b);
        assert((a + b)[0] == a[0]);
        lemma_concat_associative(piece_source(a[0]), pieces_source(a.drop_first()), pieces_source(b));
    }
}

proof fn lemma_lit_source(s: Seq<char>, from: int, to: int)
    requires
        0 <= from <= to <= s.len(),
    ensures
        pieces_source(lit_piece(s, from, to)) == s.subrange(from, to),
{
    if from < to {
        let l = lit_piece(s, from, to);
        assert(l.drop_first() =~= Seq::<Piece>::empty());
        assert(pieces_source(l.drop_first()) == Seq::<char>::empty());
        assert(piece_source(l[0]) == s.subrange(from, to));
        assert(pieces_source(l) =~= s.subrange(from, to));
    } else {
        assert(s.subrange(from, to) =~= Seq::<char>::empty());
    }
}

proof fn lemma_source_from(s: Seq<char>, i: int, start: int)
    requires
        0 <= start <= i <= s.len(),
        pieces_from(s, i, start) is Ok,
    ensures
        pieces_source(pieces_from(s, i, start)->Ok_0) == s.subrange(start, s.len() as int),
    decreases s.len() - i,
{
    if i >= s.len() {
        lemma_lit_source(s, start, s.len() as int);
    } else if s[i] == '{' {
        let j = next_marker(s, i + 1);
        lemma_next_marker(s, i + 1);
        let f = field_named(s.subrange(i + 1, j))->Some_0;
        lemma_source_from(s, j + 1, j + 1);
        let l = lit_piece(s, start, i);
        let h = seq![Piece::Hole(f)];
        let rest = pieces_from(s, j + 1, j + 1)->Ok_0;
        assert(l.push(Piece::Hole(f)) == l + h);
        lemma_pieces_source_concat(l + h, rest);
        lemma_pieces_source_concat(l, h);
        lemma_lit_source(s, start, i);
        assert(h.drop_first() =~= Seq::<Piece>::empty());
        assert(pieces_source(h.drop_first()) == Seq::<char>::empty());
        assert(pieces_source(h) =~= seq!['{'] + field_name(f) + seq!['}']);
        assert(s.subrange(i + 1, j) == field_name(f));
        assert(s.subrange(start, s.len() as int) =~= s.subrange(start, i) + (seq!['{'] + s.subrange(i + 1, j)
            + seq!['}']) + s.subrange(j + 1, s.len() as int));
    } else {
        lemma_source_from(s, i + 1, start);
    }
}

/// Compiling keeps the template's order: the pieces of a compiled template,
/// each literal written verbatim and each field as `{name}`, spell out the
/// template again. Together with `rendering_preserves_order`, every span of a
/// template renders in the position it has in the template.
pub proof fn compile_keeps_source_order(s: Seq<char>, t: StyleTable)
    requires
        pieces_of(s) is Ok,
    ensures
        pieces_source(pieces_of(s)->Ok_0) == s,
        compile_spec(s, t) == Ok::<Seq<UnitModel>, CompileError>(
            pieces_of(s)->Ok_0.map_values(|x: Piece| styled(t, x)),
        ),
{
    lemma_source_from(s, 0, 0);
    assert(s.subrange(0, s.len() as int) =~= s);
}

} // verus!
