//! The line-oriented record parser: each line is classified into level,
//! optional cross-reference, tag and value, and a context state machine
//! decides which entity the line belongs to.

use vstd::prelude::*;
use crate::model::{
    Event, EventView, Family, FamilyView, GedcomData, GedcomDataView, Individual, IndividualView,
    families_view, individuals_view, opt_event_view,
};
use crate::text::{
    chars_of, find_from, find_in, is_u32_text, decimal_value, lemma_find_from_bounds,
    parse_u32, string_of, strip_bounds, trim, trim_at_signs, unsigned_digits, word_is,
};

verus! {

/// Why a document was rejected; `line` counts from 1.
#[derive(Debug, PartialEq, Eq)]
pub enum ParseError {
    InvalidLevel { line: usize, source: std::num::ParseIntError },
    MissingTag { line: usize },
    MissingIndividualId { line: usize },
    MissingFamilyId { line: usize },
    OrphanTag { line: usize, tag: String },
}

pub enum ParseErrorView {
    InvalidLevel { line: nat },
    MissingTag { line: nat },
    MissingIndividualId { line: nat },
    MissingFamilyId { line: nat },
    OrphanTag { line: nat, tag: Seq<char> },
}

impl View for ParseError {
    type V = ParseErrorView;

    open spec fn view(&self) -> ParseErrorView {
        match self {
            ParseError::InvalidLevel { line, .. } => ParseErrorView::InvalidLevel {
                line: *line as nat,
            },
            ParseError::MissingTag { line } => ParseErrorView::MissingTag { line: *line as nat },
            ParseError::MissingIndividualId { line } => ParseErrorView::MissingIndividualId {
                line: *line as nat,
            },
            ParseError::MissingFamilyId { line } => ParseErrorView::MissingFamilyId {
                line: *line as nat,
            },
            ParseError::OrphanTag { line, tag } => ParseErrorView::OrphanTag {
                line: *line as nat,
                tag: tag@,
            },
        }
    }
}

/// The sub-section of a person that level-2 lines refer to.
#[derive(Debug, Clone, Copy, PartialEq, Eq, Structural)]
pub enum Section {
    Birth,
    Death,
}

/// Which entity the following lines belong to.
#[derive(Debug, Clone, Copy, PartialEq, Eq)]
pub enum Context {
    Empty,
    Individual { idx: usize, sub: Option<Section> },
    Family(usize),
}

/// The recognized tags.
#[derive(Debug, Clone, Copy, PartialEq, Eq, Structural)]
pub enum Tag {
    Indi,
    Fam,
    Name,
    Birt,
    Deat,
    Husb,
    Wife,
    Chil,
    Date,
    Plac,
    Other,
}

pub open spec fn tag_of(t: Seq<char>) -> Tag {
    if t == "INDI"@ {
        Tag::Indi
    } else if t == "FAM"@ {
        Tag::Fam
    } else if t == "NAME"@ {
        Tag::Name
    } else if t == "BIRT"@ {
        Tag::Birt
    } else if t == "DEAT"@ {
        Tag::Deat
    } else if t == "HUSB"@ {
        Tag::Husb
    } else if t == "WIFE"@ {
        Tag::Wife
    } else if t == "CHIL"@ {
        Tag::Chil
    } else if t == "DATE"@ {
        Tag::Date
    } else if t == "PLAC"@ {
        Tag::Plac
    } else {
        Tag::Other
    }
}

/// One classified line.
pub struct LineView {
    pub level: nat,
    pub xref: Option<Seq<char>>,
    pub tag: Seq<char>,
    pub value: Seq<char>,
}

/// A token in cross-reference form: it starts and ends with `@`.
pub open spec fn is_xref(s: Seq<char>) -> bool {
    s.len() > 0 && s[0] == '@' && s.last() == '@'
}

/// Classifies a trimmed, non-blank line `t`: up to three space-separated
/// parts, the level, then either a cross-reference and the tag (the rest
/// of the line), or the tag and the trimmed value.
pub open spec fn classify(t: Seq<char>, line: nat) -> Result<LineView, ParseErrorView> {
    let e0 = find_from(t, ' ', 0);
    let level_text = t.subrange(0, e0);
    if !is_u32_text(level_text) {
        Err(ParseErrorView::InvalidLevel { line })
    } else if e0 >= t.len() {
        Err(ParseErrorView::MissingTag { line })
    } else {
        let level = decimal_value(unsigned_digits(level_text));
        let e1 = find_from(t, ' ', e0 + 1);
        let second = t.subrange(e0 + 1, e1);
        if is_xref(second) {
            if e1 >= t.len() {
                Err(ParseErrorView::MissingTag { line })
            } else {
                Ok(
                    LineView {
                        level,
                        xref: Some(trim_at_signs(second)),
                        tag: t.subrange(e1 + 1, t.len() as int),
                        value: Seq::empty(),
                    },
                )
            }
        } else {
            let value = if e1 >= t.len() {
                Seq::empty()
            } else {
                trim(t.subrange(e1 + 1, t.len() as int))
            };
            Ok(LineView { level, xref: None, tag: second, value })
        }
    }
}

/// The parser's state: the entities so far and the current context.
pub struct ParseState {
    pub individuals: Seq<IndividualView>,
    pub families: Seq<FamilyView>,
    pub context: Context,
}

pub open spec fn initial_state() -> ParseState {
    ParseState { individuals: Seq::empty(), families: Seq::empty(), context: Context::Empty }
}

/// The context refers to an existing entity.
pub open spec fn context_wf(c: Context, n_individuals: nat, n_families: nat) -> bool {
    match c {
        Context::Empty => true,
        Context::Individual { idx, .. } => idx < n_individuals,
        Context::Family(idx) => idx < n_families,
    }
}

pub open spec fn state_wf(st: ParseState) -> bool {
    context_wf(st.context, st.individuals.len(), st.families.len())
}

/// `e` (or an empty event) with its date (`is_date`) or place set to `v`.
pub open spec fn event_with(e: Option<EventView>, is_date: bool, v: Seq<char>) -> EventView {
    let base = match e {
        Some(x) => x,
        None => EventView { date: None, place: None },
    };
    if is_date {
        EventView { date: Some(v), place: base.place }
    } else {
        EventView { date: base.date, place: Some(v) }
    }
}

pub open spec fn orphan(line: nat, tag: Seq<char>) -> Result<ParseState, ParseErrorView> {
    Err(ParseErrorView::OrphanTag { line, tag })
}

/// The transition of one classified line.
pub open spec fn apply(st: ParseState, line: nat, l: LineView) -> Result<ParseState, ParseErrorView> {
    let kind = tag_of(l.tag);
    if l.level == 0 && kind == Tag::Indi {
        match l.xref {
            None => Err(ParseErrorView::MissingIndividualId { line }),
            Some(id) => Ok(
                ParseState {
                    individuals: st.individuals.push(
                        IndividualView { id, name: None, birth: None, death: None },
                    ),
                    families: st.families,
                    context: Context::Individual { idx: st.individuals.len() as usize, sub: None },
                },
            ),
        }
    } else if l.level == 0 && kind == Tag::Fam {
        match l.xref {
            None => Err(ParseErrorView::MissingFamilyId { line }),
            Some(id) => Ok(
                ParseState {
                    individuals: st.individuals,
                    families: st.families.push(
                        FamilyView { id, husband: None, wife: None, children: Seq::empty() },
                    ),
                    context: Context::Family(st.families.len() as usize),
                },
            ),
        }
    } else if l.level == 1 && (kind == Tag::Name || kind == Tag::Birt || kind == Tag::Deat) {
        match st.context {
            Context::Individual { idx, .. } => {
                if kind == Tag::Name {
                    let p = st.individuals[idx as int];
                    Ok(
                        ParseState {
                            individuals: st.individuals.update(
                                idx as int,
                                IndividualView {
                                    id: p.id,
                                    name: Some(l.value),
                                    birth: p.birth,
                                    death: p.death,
                                },
                            ),
                            families: st.families,
                            context: Context::Individual { idx, sub: None },
                        },
                    )
                } else {
                    let sub = if kind == Tag::Birt {
                        Section::Birth
                    } else {
                        Section::Death
                    };
                    Ok(
                        ParseState {
                            individuals: st.individuals,
                            families: st.families,
                            context: Context::Individual { idx, sub: Some(sub) },
                        },
                    )
                }
            },
            _ => orphan(line, l.tag),
        }
    } else if l.level == 1 && (kind == Tag::Husb || kind == Tag::Wife || kind == Tag::Chil) {
        match st.context {
            Context::Family(idx) => {
                let f = st.families[idx as int];
                let r = trim_at_signs(l.value);
                let g = if kind == Tag::Husb {
                    FamilyView { id: f.id, husband: Some(r), wife: f.wife, children: f.children }
                } else if kind == Tag::Wife {
                    FamilyView { id: f.id, husband: f.husband, wife: Some(r), children: f.children }
                } else {
                    FamilyView {
                        id: f.id,
                        husband: f.husband,
                        wife: f.wife,
                        children: f.children.push(r),
                    }
                };
                Ok(
                    ParseState {
                        individuals: st.individuals,
                        families: st.families.update(idx as int, g),
                        context: st.context,
                    },
                )
            },
            _ => orphan(line, l.tag),
        }
    } else if l.level == 2 && (kind == Tag::Date || kind == Tag::Plac) {
        match st.context {
            Context::Individual { idx, sub: Some(sec) } => {
                let p = st.individuals[idx as int];
                let is_date = kind == Tag::Date;
                let q = if sec == Section::Birth {
                    IndividualView {
                        id: p.id,
                        name: p.name,
                        birth: Some(event_with(p.birth, is_date, l.value)),
                        death: p.death,
                    }
                } else {
                    IndividualView {
                        id: p.id,
                        name: p.name,
                        birth: p.birth,
                        death: Some(event_with(p.death, is_date, l.value)),
                    }
                };
                Ok(
                    ParseState {
                        individuals: st.individuals.update(idx as int, q),
                        families: st.families,
                        context: st.context,
                    },
                )
            },
            _ => orphan(line, l.tag),
        }
    } else {
        Ok(st)
    }
}

/// The effect of one raw line: blank lines are skipped.
pub open spec fn line_step(st: ParseState, raw: Seq<char>, line: nat) -> Result<
    ParseState,
    ParseErrorView,
> {
    let t = trim(raw);
    if t.len() == 0 {
        Ok(st)
    } else {
        match classify(t, line) {
            Err(e) => Err(e),
            Ok(l) => apply(st, line, l),
        }
    }
}

/// Runs the lines of `s` from position `pos` on, the first being line `line`.
pub open spec fn parse_from(s: Seq<char>, pos: int, line: nat, st: ParseState) -> Result<
    ParseState,
    ParseErrorView,
>
    decreases s.len() - pos,
    via parse_from_decreases
{
    if pos < 0 || pos > s.len() {
        Ok(st)
    } else {
        let end = find_from(s, '\n', pos);
        match line_step(st, s.subrange(pos, end), line) {
            Err(e) => Err(e),
            Ok(next) => if end >= s.len() {
                Ok(next)
            } else {
                parse_from(s, end + 1, line + 1, next)
            },
        }
    }
}

#[via_fn]
proof fn parse_from_decreases(s: Seq<char>, pos: int, line: nat, st: ParseState) {
    if 0 <= pos <= s.len() {
        lemma_find_from_bounds(s, '\n', pos);
    }
}

/// What parsing the document `s` yields.
pub open spec fn parse_spec(s: Seq<char>) -> Result<GedcomDataView, ParseErrorView> {
    match parse_from(s, 0, 1, initial_state()) {
        Ok(st) => Ok(GedcomDataView { individuals: st.individuals, families: st.families }),
        Err(e) => Err(e),
    }
}

/// Parsing is deterministic: equal documents give equal results, the same
/// entity collection or the same error. `parse_gedcom` returns exactly
/// `parse_spec` of its input, so two calls on one document agree.
pub proof fn law_parse_deterministic(a: Seq<char>, b: Seq<char>)
    requires
        a == b,
    ensures
        parse_spec(a) == parse_spec(b),
{
}

/// The entities collected so far and the current context.
struct Builder {
    individuals: Vec<Individual>,
    families: Vec<Family>,
    context: Context,
}

impl View for Builder {
    type V = ParseState;

    closed spec fn view(&self) -> ParseState {
        ParseState {
            individuals: individuals_view(self.individuals@),
            families: families_view(self.families@),
            context: self.context,
        }
    }
}

/// A classified line, its tag and value given as bounds into the document.
struct Classified {
    level: u32,
    xref: Option<String>,
    tag_lo: usize,
    tag_hi: usize,
    value_lo: usize,
    value_hi: usize,
}

impl Classified {
    spec fn bounded(&self, n: nat) -> bool {
        self.tag_lo <= self.tag_hi <= n && self.value_lo <= self.value_hi <= n
    }

    spec fn view_in(&self, cs: Seq<char>) -> LineView {
        LineView {
            level: self.level as nat,
            xref: crate::model::opt_str_view(self.xref),
            tag: cs.subrange(self.tag_lo as int, self.tag_hi as int),
            value: cs.subrange(self.value_lo as int, self.value_hi as int),
        }
    }
}

fn tag_kind(cs: &Vec<char>, lo: usize, hi: usize) -> (r: Tag)
    requires
        lo <= hi <= cs@.len(),
    ensures
        r == tag_of(cs@.subrange(lo as int, hi as int)),
{
    if word_is(cs, lo, hi, "INDI") {
        Tag::Indi
    } else if word_is(cs, lo, hi, "FAM") {
        Tag::Fam
    } else if word_is(cs, lo, hi, "NAME") {
        Tag::Name
    } else if word_is(cs, lo, hi, "BIRT") {
        Tag::Birt
    } else if word_is(cs, lo, hi, "DEAT") {
        Tag::Deat
    } else if word_is(cs, lo, hi, "HUSB") {
        Tag::Husb
    } else if word_is(cs, lo, hi, "WIFE") {
        Tag::Wife
    } else if word_is(cs, lo, hi, "CHIL") {
        Tag::Chil
    } else if word_is(cs, lo, hi, "DATE") {
        Tag::Date
    } else if word_is(cs, lo, hi, "PLAC") {
        Tag::Plac
    } else {
        Tag::Other
    }
}

/// Classifies the trimmed, non-blank line `cs[a..b]`.
fn classify_line(cs: &Vec<char>, a: usize, b: usize, line: usize) -> (r: Result<
    Classified,
    ParseError,
>)
    requires
        a < b <= cs@.len(),
    ensures
        match r {
            Ok(c) => c.bounded(cs@.len()) && classify(cs@.subrange(a as int, b as int), line as nat)
                == Ok::<LineView, ParseErrorView>(c.view_in(cs@)),
            Err(e) => classify(cs@.subrange(a as int, b as int), line as nat) == Err::<
                LineView,
                ParseErrorView,
            >(e@),
        },
{
    let ghost t = cs@.subrange(a as int, b as int);
    let e0 = find_in(cs, a, b, ' ', 0);
    let level_text = string_of(cs, a, a + e0);
    assert(level_text@ =~= t.subrange(0, e0 as int));
    let level = match parse_u32(level_text.as_str()) {
        Ok(v) => v,
        Err(source) => {
            return Err(ParseError::InvalidLevel { line, source });
        },
    };
    if e0 == b - a {
        return Err(ParseError::MissingTag { line });
    }
    let e1 = find_in(cs, a, b, ' ', e0 + 1);
    let s_lo = a + e0 + 1;
    let s_hi = a + e1;
    assert(cs@.subrange(s_lo as int, s_hi as int) =~= t.subrange(e0 + 1, e1 as int));
    let xref_form = s_lo < s_hi && cs[s_lo] == '@' && cs[s_hi - 1] == '@';
    if xref_form {
        if e1 == b - a {
            return Err(ParseError::MissingTag { line });
        }
        let (x_lo, x_hi) = strip_bounds(cs, s_lo, s_hi, true);
        let xref = string_of(cs, x_lo, x_hi);
        assert(cs@.subrange((a + e1 + 1) as int, b as int) =~= t.subrange(
            e1 + 1,
            t.len() as int,
        ));
        assert(cs@.subrange(b as int, b as int) =~= Seq::<char>::empty());
        Ok(
            Classified {
                level,
                xref: Some(xref),
                tag_lo: a + e1 + 1,
                tag_hi: b,
                value_lo: b,
                value_hi: b,
            },
        )
    } else {
        if e1 < b - a {
            let (v_lo, v_hi) = strip_bounds(cs, a + e1 + 1, b, false);
            assert(cs@.subrange((a + e1 + 1) as int, b as int) =~= t.subrange(
                e1 + 1,
                t.len() as int,
            ));
            Ok(
                Classified {
                    level,
                    xref: None,
                    tag_lo: s_lo,
                    tag_hi: s_hi,
                    value_lo: v_lo,
                    value_hi: v_hi,
                },
            )
        } else {
            assert(cs@.subrange(b as int, b as int) =~= Seq::<char>::empty());
            Ok(
                Classified {
                    level,
                    xref: None,
                    tag_lo: s_lo,
                    tag_hi: s_hi,
                    value_lo: b,
                    value_hi: b,
                },
            )
        }
    }
}

/// Sets the date (`is_date`) or the place of `*e`, creating the event first
/// if there is none.
fn set_event(e: &mut Option<Event>, is_date: bool, v: String)
    ensures
        opt_event_view(*final(e)) == Some(event_with(opt_event_view(*old(e)), is_date, v@)),
{
    let mut ev = match e.take() {
        Some(x) => x,
        None => Event { date: None, place: None },
    };
    if is_date {
        ev.date = Some(v);
    } else {
        ev.place = Some(v);
    }
    *e = Some(ev);
}

fn orphan_error(cs: &Vec<char>, line: usize, c: &Classified) -> (r: ParseError)
    requires
        c.bounded(cs@.len()),
    ensures
        r@ == (ParseErrorView::OrphanTag { line: line as nat, tag: c.view_in(cs@).tag }),
{
    ParseError::OrphanTag { line, tag: string_of(cs, c.tag_lo, c.tag_hi) }
}

/// Applies the transition of one classified line to the builder.
fn apply_line(b: &mut Builder, cs: &Vec<char>, line: usize, c: Classified) -> (r: Result<
    (),
    ParseError,
>)
    requires
        c.bounded(cs@.len()),
        state_wf(old(b)@),
    ensures
        match r {
            Ok(_) => state_wf(final(b)@) && apply(old(b)@, line as nat, c.view_in(cs@)) == Ok::<
                ParseState,
                ParseErrorView,
            >(final(b)@),
            Err(e) => apply(old(b)@, line as nat, c.view_in(cs@)) == Err::<
                ParseState,
                ParseErrorView,
            >(e@),
        },
{
    let ghost st = b@;
    let ghost l = c.view_in(cs@);
    let kind = tag_kind(cs, c.tag_lo, c.tag_hi);
    if c.level == 0 && kind == Tag::Indi {
        match c.xref {
            None => Err(ParseError::MissingIndividualId { line }),
            Some(id) => {
                b.individuals.push(Individual { id, name: None, birth: None, death: None });
                b.context = Context::Individual { idx: b.individuals.len() - 1, sub: None };
                assert(b@.individuals =~= st.individuals.push(
                    IndividualView { id: l.xref->0, name: None, birth: None, death: None },
                ));
                Ok(())
            },
        }
    } else if c.level == 0 && kind == Tag::Fam {
        match c.xref {
            None => Err(ParseError::MissingFamilyId { line }),
            Some(id) => {
                let children: Vec<String> = Vec::new();
                assert(crate::model::strs_view(children@) =~= Seq::empty());
                b.families.push(Family { id, husband: None, wife: None, children });
                b.context = Context::Family(b.families.len() - 1);
                assert(b@.families =~= st.families.push(
                    FamilyView { id: l.xref->0, husband: None, wife: None, children: Seq::empty() },
                ));
                Ok(())
            },
        }
    } else if c.level == 1 && (kind == Tag::Name || kind == Tag::Birt || kind == Tag::Deat) {
        match b.context {
            Context::Individual { idx, .. } => {
                if kind == Tag::Name {
                    b.individuals[idx].name = Some(string_of(cs, c.value_lo, c.value_hi));
                    b.context = Context::Individual { idx, sub: None };
                    let ghost p = st.individuals[idx as int];
                    assert(b@.individuals =~= st.individuals.update(
                        idx as int,
                        IndividualView {
                            id: p.id,
                            name: Some(l.value),
                            birth: p.birth,
                            death: p.death,
                        },
                    ));
                } else if kind == Tag::Birt {
                    b.context = Context::Individual { idx, sub: Some(Section::Birth) };
                } else {
                    b.context = Context::Individual { idx, sub: Some(Section::Death) };
                }
                Ok(())
            },
            _ => Err(orphan_error(cs, line, &c)),
        }
    } else if c.level == 1 && (kind == Tag::Husb || kind == Tag::Wife || kind == Tag::Chil) {
        match b.context {
            Context::Family(idx) => {
                let (r_lo, r_hi) = strip_bounds(cs, c.value_lo, c.value_hi, true);
                let r = string_of(cs, r_lo, r_hi);
                let ghost f = st.families[idx as int];
                if kind == Tag::Husb {
                    b.families[idx].husband = Some(r);
                } else if kind == Tag::Wife {
                    b.families[idx].wife = Some(r);
                } else {
                    b.families[idx].children.push(r);
                    assert(crate::model::strs_view(b.families@[idx as int].children@) =~= f.children.push(r@));
                }
                assert(b@.families =~= st.families.update(idx as int, b@.families[idx as int]));
                Ok(())
            },
            _ => Err(orphan_error(cs, line, &c)),
        }
    } else if c.level == 2 && (kind == Tag::Date || kind == Tag::Plac) {
        match b.context {
            Context::Individual { idx, sub: Some(sec) } => {
                let v = string_of(cs, c.value_lo, c.value_hi);
                if sec == Section::Birth {
                    set_event(&mut b.individuals[idx].birth, kind == Tag::Date, v);
                } else {
                    set_event(&mut b.individuals[idx].death, kind == Tag::Date, v);
                }
                assert(b@.individuals =~= st.individuals.update(idx as int, b@.individuals[idx as int]));
                Ok(())
            },
            _ => Err(orphan_error(cs, line, &c)),
        }
    } else {
        Ok(())
    }
}

/// Parses a whole document into its entity collection, stopping at the
/// first malformed line.
pub fn parse_gedcom(input: &str) -> (r: Result<GedcomData, ParseError>)
    ensures
        match r {
            Ok(d) => parse_spec(input@) == Ok::<GedcomDataView, ParseErrorView>(d@),
            Err(e) => parse_spec(input@) == Err::<GedcomDataView, ParseErrorView>(e@),
        },
{
    let cs = chars_of(input);
    let mut b = Builder { individuals: Vec::new(), families: Vec::new(), context: Context::Empty };
    assert(b@.individuals =~= initial_state().individuals);
    assert(b@.families =~= initial_state().families);
    assert(cs@.subrange(0, cs@.len() as int) =~= cs@);
    let mut pos: usize = 0;
    let mut idx: usize = 0;
    loop
        invariant
            pos <= cs@.len(),
            idx <= pos,
            cs@ == input@,
            cs@.subrange(0, cs@.len() as int) == cs@,
            state_wf(b@),
            parse_from(cs@, 0, 1, initial_state()) == parse_from(
                cs@,
                pos as int,
                (idx + 1) as nat,
                b@,
            ),
        decreases cs@.len() - pos,
    {
        let end = find_in(&cs, 0, cs.len(), '\n', pos);
        let (lo, hi) = strip_bounds(&cs, pos, end, false);
        let ghost before = b@;
        if lo < hi {
            let c = match classify_line(&cs, lo, hi, idx + 1) {
                Ok(c) => c,
                Err(e) => {
                    return Err(e);
                },
            };
            match apply_line(&mut b, &cs, idx + 1, c) {
                Ok(_) => {},
                Err(e) => {
                    return Err(e);
                },
            }
        }
        assert(line_step(before, cs@.subrange(pos as int, end as int), (idx + 1) as nat) == Ok::<
            ParseState,
            ParseErrorView,
        >(b@));
        if end == cs.len() {
            let d = GedcomData { individuals: b.individuals, families: b.families };
            return Ok(d);
        }
        pos = end + 1;
        idx = idx + 1;
    }
}

} // verus!
