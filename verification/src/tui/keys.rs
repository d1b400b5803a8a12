//! Key handling of the shape editor, the calculator and the marker overlay.
//!
//! Each handler takes the state and one key press, changes the state and
//! returns the action the application has to carry out (leave for the menu,
//! parse a vertex, export, place a marker, ...).  `*_key_next` states, for
//! every state and key, the next state and the action.
use vstd::prelude::*;
use crate::text::{is_control, is_control_char, pop_char, push_char, string_from, trim_bounds, trimmed};
use crate::geo::zoom::{ZOOM_MAX, ZOOM_MIN};
use crate::tui::screen::View as Screen;
use crate::tui::views::menu::MenuItem;
use crate::tui::app::{
    after_finish, after_undo, calc_mode_at, calc_mode_fields, calc_mode_index, calc_with_mode,
    calc_wf, editor_coords, finish_part_error, fresh_editor, minus_one, shape_is_multi,
    shape_min_coords, shape_type_at, parts_nonempty, lemma_undo_removes_last_vertex,
    lemma_finish_part_keeps_vertices, shape_type_key, texts, too_few_coords_error, CalcMode, CalcState,
    CalcV, LayerEntry, opt_text, MarkerInput, MarkerInputStep, MarkerInputV, ShapeEditorState, ShapeEditorStep,
    ShapeEditorV, ShapeType, CALC_MODE_COUNT, SHAPE_TYPE_COUNT,
};

verus! {

/// A key press, as the handlers see it.
#[derive(Debug, Clone, Copy, PartialEq, Eq, Structural)]
pub enum Key {
    Char(char),
    Enter,
    Esc,
    Tab,
    Backspace,
    Up,
    Down,
    Left,
    Right,
    /// Any other key.
    Other,
}

/// `s` without its last character (unchanged when empty).
pub open spec fn pop_seq(s: Seq<char>) -> Seq<char> {
    if s.len() > 0 { s.drop_last() } else { s }
}

// ── Shape editor ─────────────────────────────────────────────────────────────

/// What the application does after a shape editor key.
#[derive(Debug, Clone, Copy, PartialEq, Eq, Structural)]
pub enum ShapeKeyAction {
    /// Nothing more.
    Stay,
    /// Go back to the menu.
    ToMenu,
    /// Parse the lat/lon fields and, when valid, add the vertex
    /// (`push_vertex`, then `after_vertex_commit`); else show the error.
    CommitVertex,
    /// Write the GeoJSON file named by the export field.
    Export,
}

/// Menu position of the geometry type selected by key `c`, if any.
pub open spec fn shape_index_of_key(c: char) -> Option<nat> {
    if '1' <= c && c <= '6' {
        Some((c as u32 - '1' as u32) as nat)
    } else {
        None
    }
}

/// Type a character into the focused coordinate field.
pub open spec fn type_coord<N>(v: ShapeEditorV<N>, c: char) -> ShapeEditorV<N> {
    if v.coord_field == 0 {
        ShapeEditorV { lat: v.lat.push(c), message: None, ..v }
    } else {
        ShapeEditorV { lon: v.lon.push(c), message: None, ..v }
    }
}

/// The next editor state and the action for key `key`.
pub open spec fn shape_key_next<N>(v: ShapeEditorV<N>, key: Key) -> (ShapeEditorV<N>, ShapeKeyAction) {
    let t = shape_type_at(v.type_idx as int);
    match v.step {
        ShapeEditorStep::SelectType => match key {
            Key::Esc => (v, ShapeKeyAction::ToMenu),
            Key::Up => if v.type_idx > 0 {
                (ShapeEditorV { type_idx: (v.type_idx - 1) as nat, ..v }, ShapeKeyAction::Stay)
            } else {
                (v, ShapeKeyAction::Stay)
            },
            Key::Down => if v.type_idx + 1 < SHAPE_TYPE_COUNT {
                (ShapeEditorV { type_idx: v.type_idx + 1, ..v }, ShapeKeyAction::Stay)
            } else {
                (v, ShapeKeyAction::Stay)
            },
            Key::Enter | Key::Tab => (
                ShapeEditorV { step: ShapeEditorStep::AddVertices, ..v },
                ShapeKeyAction::Stay,
            ),
            Key::Char(c) => if c == 'q' || c == 'Q' {
                (v, ShapeKeyAction::ToMenu)
            } else {
                match shape_index_of_key(c) {
                    Some(i) => (
                        ShapeEditorV { type_idx: i, step: ShapeEditorStep::AddVertices, ..v },
                        ShapeKeyAction::Stay,
                    ),
                    None => (v, ShapeKeyAction::Stay),
                }
            },
            _ => (v, ShapeKeyAction::Stay),
        },
        ShapeEditorStep::AddVertices => match key {
            Key::Esc => (
                ShapeEditorV { step: ShapeEditorStep::SelectType, message: None, ..v },
                ShapeKeyAction::Stay,
            ),
            Key::Tab => (
                ShapeEditorV { coord_field: (1 - v.coord_field) as nat, message: None, ..v },
                ShapeKeyAction::Stay,
            ),
            Key::Enter => if v.coord_field == 0 {
                (ShapeEditorV { coord_field: 1, ..v }, ShapeKeyAction::Stay)
            } else {
                (v, ShapeKeyAction::CommitVertex)
            },
            Key::Backspace => if v.coord_field == 0 {
                (ShapeEditorV { lat: pop_seq(v.lat), message: None, ..v }, ShapeKeyAction::Stay)
            } else {
                (ShapeEditorV { lon: pop_seq(v.lon), message: None, ..v }, ShapeKeyAction::Stay)
            },
            Key::Up => (ShapeEditorV { vert_scroll: minus_one(v.vert_scroll), ..v }, ShapeKeyAction::Stay),
            Key::Down => if v.vert_scroll < minus_one(editor_coords(v).len()) {
                (ShapeEditorV { vert_scroll: v.vert_scroll + 1, ..v }, ShapeKeyAction::Stay)
            } else {
                (v, ShapeKeyAction::Stay)
            },
            Key::Char(c) => if c == 'f' || c == 'F' {
                if !shape_is_multi(t) {
                    (
                        ShapeEditorV { message: Some("F is only for multi-geometry types."@), ..v },
                        ShapeKeyAction::Stay,
                    )
                } else if v.current.len() < shape_min_coords(t) {
                    (ShapeEditorV { message: Some(finish_part_error(t)), ..v }, ShapeKeyAction::Stay)
                } else {
                    (after_finish(v), ShapeKeyAction::Stay)
                }
            } else if c == 'u' || c == 'U' {
                (after_undo(v), ShapeKeyAction::Stay)
            } else if c == 'n' || c == 'N' {
                if editor_coords(v).len() < shape_min_coords(t) {
                    (ShapeEditorV { message: Some(too_few_coords_error(t)), ..v }, ShapeKeyAction::Stay)
                } else {
                    (
                        ShapeEditorV { step: ShapeEditorStep::EnterName, message: None, ..v },
                        ShapeKeyAction::Stay,
                    )
                }
            } else if !is_control_char(c) {
                (type_coord(v, c), ShapeKeyAction::Stay)
            } else {
                (v, ShapeKeyAction::Stay)
            },
            _ => (v, ShapeKeyAction::Stay),
        },
        ShapeEditorStep::EnterName => match key {
            Key::Esc => (ShapeEditorV { step: ShapeEditorStep::AddVertices, ..v }, ShapeKeyAction::Stay),
            Key::Backspace => (ShapeEditorV { name: pop_seq(v.name), ..v }, ShapeKeyAction::Stay),
            Key::Enter | Key::Tab => (
                ShapeEditorV { step: ShapeEditorStep::EnterExportPath, ..v },
                ShapeKeyAction::Stay,
            ),
            Key::Char(c) => if !is_control_char(c) {
                (ShapeEditorV { name: v.name.push(c), ..v }, ShapeKeyAction::Stay)
            } else {
                (v, ShapeKeyAction::Stay)
            },
            _ => (v, ShapeKeyAction::Stay),
        },
        ShapeEditorStep::EnterExportPath => match key {
            Key::Esc => (
                ShapeEditorV { step: ShapeEditorStep::EnterName, message: None, ..v },
                ShapeKeyAction::Stay,
            ),
            Key::Backspace => (ShapeEditorV { export: pop_seq(v.export), ..v }, ShapeKeyAction::Stay),
            Key::Enter => (v, ShapeKeyAction::Export),
            Key::Char(c) => if c == 'q' || c == 'Q' {
                (fresh_editor(), ShapeKeyAction::ToMenu)
            } else if c == 'r' || c == 'R' {
                (fresh_editor(), ShapeKeyAction::Stay)
            } else if !is_control_char(c) {
                (ShapeEditorV { export: v.export.push(c), message: None, ..v }, ShapeKeyAction::Stay)
            } else {
                (v, ShapeKeyAction::Stay)
            },
            _ => (v, ShapeKeyAction::Stay),
        },
    }
}

/// An editor state the key handler accepts: a geometry type of the menu, one
/// of the two coordinate fields focused, and room for one more vertex.
pub open spec fn shape_editor_wf<N>(v: ShapeEditorV<N>) -> bool {
    &&& v.type_idx < SHAPE_TYPE_COUNT
    &&& v.coord_field <= 1
    &&& editor_coords(v).len() < usize::MAX
}

/// Menu position of the geometry type whose key is `c`.
fn shape_index_for_key(c: char) -> (r: Option<usize>)
    ensures
        match shape_index_of_key(c) {
            Some(i) => r == Some(i as usize),
            None => r is None,
        },
{
    let mut i: usize = 0;
    while i < SHAPE_TYPE_COUNT
        invariant
            i <= SHAPE_TYPE_COUNT,
            forall|k: int| 0 <= k < i ==> shape_type_key(#[trigger] shape_type_at(k)) != c,
        decreases SHAPE_TYPE_COUNT - i,
    {
        if ShapeType::at(i).key() == c {
            assert(c as u32 == '1' as u32 + i);
            return Some(i);
        }
        i = i + 1;
    }
    assert(shape_type_key(shape_type_at(0)) == '1');
    assert(shape_type_key(shape_type_at(5)) == '6');
    assert(shape_type_key(shape_type_at(1)) == '2');
    assert(shape_type_key(shape_type_at(2)) == '3');
    assert(shape_type_key(shape_type_at(3)) == '4');
    assert(shape_type_key(shape_type_at(4)) == '5');
    None
}

/// Handle one key press in the shape editor.
pub fn shape_editor_key<N: Copy>(ed: &mut ShapeEditorState<N>, key: Key) -> (act: ShapeKeyAction)
    requires
        shape_editor_wf(old(ed)@),
    ensures
        (final(ed)@, act) == shape_key_next(old(ed)@, key),
{
    let ghost v = ed@;
    match ed.step {
        ShapeEditorStep::SelectType => match key {
            Key::Esc => ShapeKeyAction::ToMenu,
            Key::Up => {
                if ed.type_idx > 0 {
                    ed.type_idx = ed.type_idx - 1;
                }
                ShapeKeyAction::Stay
            },
            Key::Down => {
                if ed.type_idx + 1 < SHAPE_TYPE_COUNT {
                    ed.type_idx = ed.type_idx + 1;
                }
                ShapeKeyAction::Stay
            },
            Key::Enter | Key::Tab => {
                ed.step = ShapeEditorStep::AddVertices;
                ShapeKeyAction::Stay
            },
            Key::Char(c) => {
                if c == 'q' || c == 'Q' {
                    ShapeKeyAction::ToMenu
                } else {
                    match shape_index_for_key(c) {
                        Some(idx) => {
                            ed.type_idx = idx;
                            ed.step = ShapeEditorStep::AddVertices;
                        },
                        None => {},
                    }
                    ShapeKeyAction::Stay
                }
            },
            _ => ShapeKeyAction::Stay,
        },
        ShapeEditorStep::AddVertices => match key {
            Key::Esc => {
                ed.step = ShapeEditorStep::SelectType;
                ed.message = None;
                ShapeKeyAction::Stay
            },
            Key::Tab => {
                ed.coord_field = 1 - ed.coord_field;
                ed.message = None;
                ShapeKeyAction::Stay
            },
            Key::Enter => {
                if ed.coord_field == 0 {
                    ed.coord_field = 1;
                    ShapeKeyAction::Stay
                } else {
                    ShapeKeyAction::CommitVertex
                }
            },
            Key::Backspace => {
                if ed.coord_field == 0 {
                    pop_char(&mut ed.lat_buf);
                } else {
                    pop_char(&mut ed.lon_buf);
                }
                ed.message = None;
                ShapeKeyAction::Stay
            },
            Key::Up => {
                ed.vert_scroll = if ed.vert_scroll > 0 { ed.vert_scroll - 1 } else { 0 };
                ShapeKeyAction::Stay
            },
            Key::Down => {
                let total = ed.total_coords();
                let max = if total > 0 { total - 1 } else { 0 };
                if ed.vert_scroll < max {
                    ed.vert_scroll = ed.vert_scroll + 1;
                }
                ShapeKeyAction::Stay
            },
            Key::Char(c) => {
                if c == 'f' || c == 'F' {
                    let t = ed.current_type();
                    if t.is_multi() {
                        match ed.finish_part() {
                            Ok(()) => {},
                            Err(e) => {
                                ed.message = Some(e);
                            },
                        }
                    } else {
                        ed.message = Some(string_from("F is only for multi-geometry types."));
                    }
                } else if c == 'u' || c == 'U' {
                    ed.undo_vertex();
                } else if c == 'n' || c == 'N' {
                    let t = ed.current_type();
                    let min = t.min_coords_per_part();
                    if ed.total_coords() < min {
                        ed.message = Some(crate::tui::app::too_few_coords(t));
                    } else {
                        ed.step = ShapeEditorStep::EnterName;
                        ed.message = None;
                    }
                } else if !is_control(c) {
                    if ed.coord_field == 0 {
                        push_char(&mut ed.lat_buf, c);
                    } else {
                        push_char(&mut ed.lon_buf, c);
                    }
                    ed.message = None;
                }
                ShapeKeyAction::Stay
            },
            _ => ShapeKeyAction::Stay,
        },
        ShapeEditorStep::EnterName => match key {
            Key::Esc => {
                ed.step = ShapeEditorStep::AddVertices;
                ShapeKeyAction::Stay
            },
            Key::Backspace => {
                pop_char(&mut ed.name_buf);
                ShapeKeyAction::Stay
            },
            Key::Enter | Key::Tab => {
                ed.step = ShapeEditorStep::EnterExportPath;
                ShapeKeyAction::Stay
            },
            Key::Char(c) => {
                if !is_control(c) {
                    push_char(&mut ed.name_buf, c);
                }
                ShapeKeyAction::Stay
            },
            _ => ShapeKeyAction::Stay,
        },
        ShapeEditorStep::EnterExportPath => match key {
            Key::Esc => {
                ed.step = ShapeEditorStep::EnterName;
                ed.message = None;
                ShapeKeyAction::Stay
            },
            Key::Backspace => {
                pop_char(&mut ed.export_buf);
                ShapeKeyAction::Stay
            },
            Key::Enter => ShapeKeyAction::Export,
            Key::Char(c) => {
                if c == 'q' || c == 'Q' {
                    ed.reset();
                    ShapeKeyAction::ToMenu
                } else if c == 'r' || c == 'R' {
                    ed.reset();
                    ShapeKeyAction::Stay
                } else {
                    if !is_control(c) {
                        push_char(&mut ed.export_buf, c);
                        ed.message = None;
                    }
                    ShapeKeyAction::Stay
                }
            },
            _ => ShapeKeyAction::Stay,
        },
    }
}

/// The shape editor's key handling keeps a geometry type of the menu
/// selected, one of the two coordinate fields focused, and every finished
/// part non-empty.
pub proof fn lemma_shape_keys_keep_invariants<N>(v: ShapeEditorV<N>, key: Key)
    requires
        v.type_idx < SHAPE_TYPE_COUNT,
        v.coord_field <= 1,
        parts_nonempty(v.parts),
    ensures
        shape_key_next(v, key).0.type_idx < SHAPE_TYPE_COUNT,
        shape_key_next(v, key).0.coord_field <= 1,
        parts_nonempty(shape_key_next(v, key).0.parts),
{
    lemma_undo_removes_last_vertex(v.parts, v.current);
    let t = shape_type_at(v.type_idx as int);
    if v.current.len() >= shape_min_coords(t) {
        lemma_finish_part_keeps_vertices(v.parts, v.current);
    }
    assert(parts_nonempty(fresh_editor::<N>().parts));
}

// ── Calculator ───────────────────────────────────────────────────────────────

/// What the application does after a calculator key.
#[derive(Debug, Clone, Copy, PartialEq)]
pub enum CalcKeyAction<N> {
    /// Nothing more.
    Stay,
    /// Go back to the menu.
    ToMenu,
    /// Run the selected calculator on the fields.
    Compute,
    /// Open the marker overlay at the result's `(lat, lon)`.
    PlaceMarker(N, N),
    /// Turn the globe to the result's `(lat, lon)` and show it.
    ShowOnGlobe(N, N),
    /// Centre the flat map on the result's `(lat, lon)` and show it.
    ShowOnMap(N, N),
}

/// Menu position of the calculator selected by key `c`, if any.
pub open spec fn calc_index_of_key(c: char) -> Option<nat> {
    if '1' <= c && c <= '9' {
        Some((c as u32 - '1' as u32) as nat)
    } else {
        None
    }
}

/// The point of the last result, if it has one.
pub open spec fn result_point<N>(v: CalcV<N>) -> Option<(N, N)> {
    match v.result {
        Some(r) => r.1,
        None => None,
    }
}

/// The focused field edited to `f`; the result and error dropped.
pub open spec fn edit_field<N>(v: CalcV<N>, f: Seq<char>) -> CalcV<N> {
    CalcV { fields: v.fields.update(v.field_idx as int, f), result: None, error: None, ..v }
}

/// The next calculator state and the action for key `key`.
pub open spec fn calc_key_next<N>(v: CalcV<N>, key: Key) -> (CalcV<N>, CalcKeyAction<N>) {
    let n = calc_mode_fields(calc_mode_at(v.mode_idx as int)).len();
    let max = minus_one(n);
    match key {
        Key::Esc => if v.focus_right {
            (CalcV { focus_right: false, ..v }, CalcKeyAction::Stay)
        } else {
            (v, CalcKeyAction::ToMenu)
        },
        Key::Up => if v.focus_right {
            if v.field_idx > 0 {
                (CalcV { field_idx: (v.field_idx - 1) as nat, ..v }, CalcKeyAction::Stay)
            } else {
                (v, CalcKeyAction::Stay)
            }
        } else if v.mode_idx > 0 {
            (calc_with_mode(v, (v.mode_idx - 1) as nat), CalcKeyAction::Stay)
        } else {
            (v, CalcKeyAction::Stay)
        },
        Key::Down => if v.focus_right {
            if v.field_idx < max {
                (CalcV { field_idx: v.field_idx + 1, ..v }, CalcKeyAction::Stay)
            } else {
                (v, CalcKeyAction::Stay)
            }
        } else if v.mode_idx + 1 < CALC_MODE_COUNT {
            (calc_with_mode(v, v.mode_idx + 1), CalcKeyAction::Stay)
        } else {
            (v, CalcKeyAction::Stay)
        },
        Key::Tab => if v.focus_right {
            (CalcV { field_idx: ((v.field_idx + 1) % n) as nat, ..v }, CalcKeyAction::Stay)
        } else {
            (CalcV { focus_right: true, ..v }, CalcKeyAction::Stay)
        },
        Key::Enter => if !v.focus_right {
            (CalcV { focus_right: true, ..v }, CalcKeyAction::Stay)
        } else if v.field_idx < max {
            (CalcV { field_idx: v.field_idx + 1, ..v }, CalcKeyAction::Stay)
        } else {
            (v, CalcKeyAction::Compute)
        },
        Key::Backspace => if v.focus_right {
            (edit_field(v, pop_seq(v.fields[v.field_idx as int])), CalcKeyAction::Stay)
        } else {
            (v, CalcKeyAction::Stay)
        },
        Key::Char(c) => if !v.focus_right && (c == 'p' || c == 'P') {
            match result_point(v) {
                Some(p) => (v, CalcKeyAction::PlaceMarker(p.0, p.1)),
                None => (v, CalcKeyAction::Stay),
            }
        } else if !v.focus_right && (c == 'g' || c == 'G') {
            match result_point(v) {
                Some(p) => (v, CalcKeyAction::ShowOnGlobe(p.0, p.1)),
                None => (v, CalcKeyAction::Stay),
            }
        } else if !v.focus_right && (c == 'm' || c == 'M') {
            match result_point(v) {
                Some(p) => (v, CalcKeyAction::ShowOnMap(p.0, p.1)),
                None => (v, CalcKeyAction::Stay),
            }
        } else if v.focus_right {
            (edit_field(v, v.fields[v.field_idx as int].push(c)), CalcKeyAction::Stay)
        } else {
            match calc_index_of_key(c) {
                Some(i) => (calc_with_mode(v, i), CalcKeyAction::Stay),
                None => if c == 'q' || c == 'Q' {
                    (v, CalcKeyAction::ToMenu)
                } else {
                    (v, CalcKeyAction::Stay)
                },
            }
        },
        _ => (v, CalcKeyAction::Stay),
    }
}

/// Menu position of the calculator whose key is `c`.
fn calc_index_for_key(c: char) -> (r: Option<usize>)
    ensures
        match calc_index_of_key(c) {
            Some(i) => r == Some(i as usize),
            None => r is None,
        },
{
    let mut i: usize = 0;
    while i < CALC_MODE_COUNT
        invariant
            i <= CALC_MODE_COUNT,
            (c as u32) < 0x31 || (c as u32) >= 0x31 + i,
        decreases CALC_MODE_COUNT - i,
    {
        let m = CalcMode::at(i);
        assert(calc_mode_index(calc_mode_at(i as int)) == i);
        let k = m.key();
        assert(k as u32 == 0x31 + i);
        if k == c {
            return Some(i);
        }
        i = i + 1;
    }
    None
}

/// Edit the focused field with `f` (pop or push) and drop the result.
fn set_focused_field<N>(calc: &mut CalcState<N>, f: String)
    requires
        calc_wf(old(calc)@),
    ensures
        final(calc)@ == edit_field(old(calc)@, f@),
{
    let i = calc.field_idx;
    calc.fields.set(i, f);
    calc.result = None;
    calc.error = None;
    assert(texts(calc.fields@) =~= texts(old(calc).fields@).update(i as int, f@));
    assert(calc@ =~= edit_field(old(calc)@, f@));
}

/// Handle one key press in the calculator.
pub fn calc_key<N: Copy>(calc: &mut CalcState<N>, key: Key) -> (act: CalcKeyAction<N>)
    requires
        calc_wf(old(calc)@),
    ensures
        (final(calc)@, act) == calc_key_next(old(calc)@, key),
        calc_wf(final(calc)@),
{
    let ghost v = calc@;
    let point: Option<(N, N)> = match &calc.result {
        Some(r) => r.latlon,
        None => None,
    };
    let n = calc.current_mode().field_labels().len();
    let max = if n > 0 { n - 1 } else { 0 };
    match key {
        Key::Esc => {
            if calc.focus_right {
                calc.focus_right = false;
                CalcKeyAction::Stay
            } else {
                CalcKeyAction::ToMenu
            }
        },
        Key::Up => {
            if calc.focus_right {
                if calc.field_idx > 0 {
                    calc.field_idx = calc.field_idx - 1;
                }
            } else if calc.mode_idx > 0 {
                calc.set_mode(calc.mode_idx - 1);
            }
            CalcKeyAction::Stay
        },
        Key::Down => {
            if calc.focus_right {
                if calc.field_idx < max {
                    calc.field_idx = calc.field_idx + 1;
                }
            } else if calc.mode_idx + 1 < CALC_MODE_COUNT {
                calc.set_mode(calc.mode_idx + 1);
            }
            CalcKeyAction::Stay
        },
        Key::Tab => {
            if calc.focus_right {
                calc.field_idx = (calc.field_idx + 1) % n;
            } else {
                calc.focus_right = true;
            }
            CalcKeyAction::Stay
        },
        Key::Enter => {
            if !calc.focus_right {
                calc.focus_right = true;
                CalcKeyAction::Stay
            } else if calc.field_idx < max {
                calc.field_idx = calc.field_idx + 1;
                CalcKeyAction::Stay
            } else {
                CalcKeyAction::Compute
            }
        },
        Key::Backspace => {
            if calc.focus_right {
                let mut f = calc.fields[calc.field_idx].clone();
                pop_char(&mut f);
                set_focused_field(calc, f);
            }
            CalcKeyAction::Stay
        },
        Key::Char(c) => {
            if !calc.focus_right && (c == 'p' || c == 'P') {
                match point {
                    Some(p) => CalcKeyAction::PlaceMarker(p.0, p.1),
                    None => CalcKeyAction::Stay,
                }
            } else if !calc.focus_right && (c == 'g' || c == 'G') {
                match point {
                    Some(p) => CalcKeyAction::ShowOnGlobe(p.0, p.1),
                    None => CalcKeyAction::Stay,
                }
            } else if !calc.focus_right && (c == 'm' || c == 'M') {
                match point {
                    Some(p) => CalcKeyAction::ShowOnMap(p.0, p.1),
                    None => CalcKeyAction::Stay,
                }
            } else if calc.focus_right {
                let mut f = calc.fields[calc.field_idx].clone();
                push_char(&mut f, c);
                set_focused_field(calc, f);
                CalcKeyAction::Stay
            } else {
                match calc_index_for_key(c) {
                    Some(idx) => {
                        calc.set_mode(idx);
                        CalcKeyAction::Stay
                    },
                    None => {
                        if c == 'q' || c == 'Q' {
                            CalcKeyAction::ToMenu
                        } else {
                            CalcKeyAction::Stay
                        }
                    },
                }
            }
        },
        _ => CalcKeyAction::Stay,
    }
}

// ── Marker overlay ───────────────────────────────────────────────────────────

/// What the application does after a marker overlay key.
#[derive(Debug, Clone, Copy, PartialEq, Eq, Structural)]
pub enum MarkerKeyAction {
    /// Keep the overlay open.
    Stay,
    /// Close the overlay without storing anything.
    Cancel,
    /// Store the marker (see `commit_symbol`, `commit_label`) and close the
    /// overlay.
    Commit,
}

/// The next overlay state and the action for key `key`.
pub open spec fn marker_key_next<N>(v: MarkerInputV<N>, key: Key) -> (MarkerInputV<N>, MarkerKeyAction) {
    match v.step {
        MarkerInputStep::Symbol => match key {
            Key::Esc => (v, MarkerKeyAction::Cancel),
            Key::Tab | Key::Enter => if v.symbol.len() == 0 {
                (
                    MarkerInputV { symbol: "●"@, step: MarkerInputStep::Label, ..v },
                    MarkerKeyAction::Stay,
                )
            } else if key == Key::Enter {
                (MarkerInputV { step: MarkerInputStep::Label, ..v }, MarkerKeyAction::Stay)
            } else {
                (v, MarkerKeyAction::Stay)
            },
            Key::Backspace => (MarkerInputV { symbol: Seq::empty(), ..v }, MarkerKeyAction::Stay),
            Key::Char(c) => if !is_control_char(c) {
                (
                    MarkerInputV { symbol: seq![c], step: MarkerInputStep::Label, ..v },
                    MarkerKeyAction::Stay,
                )
            } else {
                (v, MarkerKeyAction::Stay)
            },
            _ => (v, MarkerKeyAction::Stay),
        },
        MarkerInputStep::Label => match key {
            Key::Esc => (v, MarkerKeyAction::Cancel),
            Key::Tab => if v.label.len() == 0 {
                (MarkerInputV { label: "Marker"@, ..v }, MarkerKeyAction::Stay)
            } else {
                (v, MarkerKeyAction::Stay)
            },
            Key::Backspace => (MarkerInputV { label: pop_seq(v.label), ..v }, MarkerKeyAction::Stay),
            Key::Enter => (MarkerInputV { step: MarkerInputStep::Blink, ..v }, MarkerKeyAction::Stay),
            Key::Char(c) => if !is_control_char(c) {
                (MarkerInputV { label: v.label.push(c), ..v }, MarkerKeyAction::Stay)
            } else {
                (v, MarkerKeyAction::Stay)
            },
            _ => (v, MarkerKeyAction::Stay),
        },
        MarkerInputStep::Blink => match key {
            Key::Esc => (v, MarkerKeyAction::Cancel),
            Key::Char(c) => if c == 'y' || c == 'Y' {
                (MarkerInputV { blink: true, ..v }, MarkerKeyAction::Commit)
            } else {
                (MarkerInputV { blink: false, ..v }, MarkerKeyAction::Commit)
            },
            _ => (MarkerInputV { blink: false, ..v }, MarkerKeyAction::Commit),
        },
    }
}

/// Handle one key press in the marker overlay.
pub fn marker_input_key<N: Copy>(mi: &mut MarkerInput<N>, key: Key) -> (act: MarkerKeyAction)
    ensures
        (final(mi)@, act) == marker_key_next(old(mi)@, key),
{
    match mi.step {
        MarkerInputStep::Symbol => match key {
            Key::Esc => MarkerKeyAction::Cancel,
            Key::Tab | Key::Enter => {
                if mi.symbol_buf.as_str().unicode_len() == 0 {
                    mi.symbol_buf = string_from("●");
                    mi.step = MarkerInputStep::Label;
                } else if key == Key::Enter {
                    mi.step = MarkerInputStep::Label;
                }
                MarkerKeyAction::Stay
            },
            Key::Backspace => {
                mi.symbol_buf = String::new();
                MarkerKeyAction::Stay
            },
            Key::Char(c) => {
                if !is_control(c) {
                    mi.symbol_buf = crate::text::char_string(c);
                    mi.step = MarkerInputStep::Label;
                }
                MarkerKeyAction::Stay
            },
            _ => MarkerKeyAction::Stay,
        },
        MarkerInputStep::Label => match key {
            Key::Esc => MarkerKeyAction::Cancel,
            Key::Tab => {
                if mi.label_buf.as_str().unicode_len() == 0 {
                    mi.label_buf = string_from("Marker");
                }
                MarkerKeyAction::Stay
            },
            Key::Backspace => {
                pop_char(&mut mi.label_buf);
                MarkerKeyAction::Stay
            },
            Key::Enter => {
                mi.step = MarkerInputStep::Blink;
                MarkerKeyAction::Stay
            },
            Key::Char(c) => {
                if !is_control(c) {
                    push_char(&mut mi.label_buf, c);
                }
                MarkerKeyAction::Stay
            },
            _ => MarkerKeyAction::Stay,
        },
        MarkerInputStep::Blink => match key {
            Key::Esc => MarkerKeyAction::Cancel,
            Key::Char(c) => {
                mi.blink = c == 'y' || c == 'Y';
                MarkerKeyAction::Commit
            },
            _ => {
                mi.blink = false;
                MarkerKeyAction::Commit
            },
        },
    }
}

// ── Menu ─────────────────────────────────────────────────────────────────────

/// What the application does after a menu key.
#[derive(Debug, Clone, Copy, PartialEq, Eq, Structural)]
pub enum MenuKeyAction {
    Stay,
    /// Save the session and leave.
    Quit,
    /// Open a view.
    Open(Screen),
}

/// The first menu entry whose key is `c`, if any.
pub open spec fn menu_entry_for(keys: Seq<char>, c: char) -> Option<int>
    decreases keys.len(),
{
    if keys.len() == 0 {
        None
    } else {
        match menu_entry_for(keys.drop_last(), c) {
            Some(i) => Some(i),
            None => if keys.last() == c { Some(keys.len() - 1) } else { None },
        }
    }
}

/// The keys of the menu entries, in order.
pub open spec fn item_keys(items: Seq<MenuItem>) -> Seq<char> {
    items.map_values(|m: MenuItem| m.key)
}

/// The next highlighted row and the action for key `key` in a menu of
/// `items`.
pub open spec fn menu_key_next(sel: nat, items: Seq<MenuItem>, key: Key) -> (nat, MenuKeyAction) {
    match key {
        Key::Char(c) => if c == 'q' || c == 'Q' {
            (sel, MenuKeyAction::Quit)
        } else {
            match menu_entry_for(item_keys(items), c) {
                Some(i) => (sel, MenuKeyAction::Open(items[i].view)),
                None => (sel, MenuKeyAction::Stay),
            }
        },
        Key::Up => (minus_one(sel), MenuKeyAction::Stay),
        Key::Down => if sel + 1 < items.len() { (sel + 1, MenuKeyAction::Stay) } else { (sel, MenuKeyAction::Stay) },
        Key::Enter => (sel, MenuKeyAction::Open(items[sel as int].view)),
        _ => (sel, MenuKeyAction::Stay),
    }
}

/// Handle one key press in the main menu; `sel` is the highlighted row.
pub fn menu_key(sel: &mut usize, items: &Vec<MenuItem>, key: Key) -> (act: MenuKeyAction)
    requires
        *old(sel) < items@.len(),
    ensures
        (*final(sel) as nat, act) == menu_key_next(*old(sel) as nat, items@, key),
        *final(sel) < items@.len(),
{
    match key {
        Key::Char(c) => {
            if c == 'q' || c == 'Q' {
                return MenuKeyAction::Quit;
            }
            let ghost ks = item_keys(items@);
            let mut i: usize = 0;
            while i < items.len()
                invariant
                    i <= items@.len(),
                    *sel == *old(sel),
                    *old(sel) < items@.len(),
                    c != 'q' && c != 'Q',
                    key == Key::Char(c),
                    ks == item_keys(items@),
                    menu_entry_for(ks.subrange(0, i as int), c) is None,
                decreases items@.len() - i,
            {
                proof {
                    assert(ks.subrange(0, i as int + 1).drop_last() =~= ks.subrange(0, i as int));
                }
                if items[i].key == c {
                    proof {
                        assert(ks[i as int] == items@[i as int].key);
                        assert(ks.subrange(0, i as int + 1).last() == c);
                        assert(menu_entry_for(ks.subrange(0, i as int + 1), c) == Some(i as int));
                        lemma_menu_entry_prefix(ks, c, i as int + 1);
                    }
                    return MenuKeyAction::Open(items[i].view);
                }
                i = i + 1;
            }
            assert(ks.subrange(0, items@.len() as int) =~= ks);
            MenuKeyAction::Stay
        },
        Key::Up => {
            if *sel > 0 {
                *sel = *sel - 1;
            }
            MenuKeyAction::Stay
        },
        Key::Down => {
            let n = items.len();
            if *sel + 1 < n {
                *sel = *sel + 1;
            }
            MenuKeyAction::Stay
        },
        Key::Enter => MenuKeyAction::Open(items[*sel].view),
        _ => MenuKeyAction::Stay,
    }
}

/// An entry found in a prefix is the entry found in the whole.
proof fn lemma_menu_entry_prefix(ks: Seq<char>, c: char, n: int)
    requires
        0 <= n <= ks.len(),
        menu_entry_for(ks.subrange(0, n), c) is Some,
    ensures
        menu_entry_for(ks, c) == menu_entry_for(ks.subrange(0, n), c),
        0 <= menu_entry_for(ks, c)->0 < n,
        ks[menu_entry_for(ks, c)->0] == c,
    decreases ks.len(),
{
    if n < ks.len() {
        assert(ks.drop_last().subrange(0, n) =~= ks.subrange(0, n));
        lemma_menu_entry_prefix(ks.drop_last(), c, n);
    } else {
        assert(ks.subrange(0, n) =~= ks);
        lemma_menu_entry_found(ks, c);
    }
}

proof fn lemma_menu_entry_found(ks: Seq<char>, c: char)
    ensures
        menu_entry_for(ks, c) matches Some(i) ==> 0 <= i < ks.len() && ks[i] == c,
    decreases ks.len(),
{
    if ks.len() > 0 {
        lemma_menu_entry_found(ks.drop_last(), c);
    }
}

// ── Layer manager ────────────────────────────────────────────────────────────

/// What the application does after a layer manager key.
#[derive(Debug, Clone, Copy, PartialEq, Eq, Structural)]
pub enum LayersKeyAction {
    Stay,
    /// Return to the view the manager was opened from.
    Back,
}

/// The layer manager's state: the selected row (0 = the built-in
/// elevation layer, `k + 1` = layer `k`), the layers, the elevation layer's
/// switch and the info overlay's.
pub open spec fn layers_key_next<N>(
    sel: nat,
    layers: Seq<LayerEntry<N>>,
    topo: bool,
    info: bool,
    key: Key,
) -> (nat, Seq<LayerEntry<N>>, bool, bool, LayersKeyAction) {
    match key {
        Key::Esc => (sel, layers, topo, info, LayersKeyAction::Back),
        Key::Up => (minus_one(sel), layers, topo, info, LayersKeyAction::Stay),
        Key::Down => if sel < layers.len() {
            (sel + 1, layers, topo, info, LayersKeyAction::Stay)
        } else {
            (sel, layers, topo, info, LayersKeyAction::Stay)
        },
        Key::Enter => toggle_layer(sel, layers, topo, info),
        Key::Char(c) => if c == 'q' || c == 'Q' {
            (sel, layers, topo, info, LayersKeyAction::Back)
        } else if c == 'i' || c == 'I' {
            (sel, layers, topo, !info, LayersKeyAction::Stay)
        } else if c == ' ' {
            toggle_layer(sel, layers, topo, info)
        } else if c == 'd' || c == 'D' {
            if sel > 0 && sel - 1 < layers.len() {
                let rest = layers.remove(sel - 1);
                (if sel > rest.len() { (sel - 1) as nat } else { sel }, rest, topo, info, LayersKeyAction::Stay)
            } else {
                (sel, layers, topo, info, LayersKeyAction::Stay)
            }
        } else {
            (sel, layers, topo, info, LayersKeyAction::Stay)
        },
        _ => (sel, layers, topo, info, LayersKeyAction::Stay),
    }
}

/// Space/Enter: the elevation layer or the selected layer switched on or off.
pub open spec fn toggle_layer<N>(sel: nat, layers: Seq<LayerEntry<N>>, topo: bool, info: bool) -> (
    nat,
    Seq<LayerEntry<N>>,
    bool,
    bool,
    LayersKeyAction,
) {
    if sel == 0 {
        (sel, layers, !topo, info, LayersKeyAction::Stay)
    } else if sel - 1 < layers.len() {
        let e = layers[sel - 1];
        (
            sel,
            layers.update(sel - 1, LayerEntry { visible: !e.visible, ..e }),
            topo,
            info,
            LayersKeyAction::Stay,
        )
    } else {
        (sel, layers, topo, info, LayersKeyAction::Stay)
    }
}

/// Switching a layer twice leaves the layer manager as it was.
pub proof fn lemma_toggle_layer_twice<N>(sel: nat, layers: Seq<LayerEntry<N>>, topo: bool, info: bool)
    ensures
        ({
            let (s1, l1, t1, i1, _) = toggle_layer(sel, layers, topo, info);
            toggle_layer(s1, l1, t1, i1) == (sel, layers, topo, info, LayersKeyAction::Stay)
        }),
{
    if sel > 0 && sel - 1 < layers.len() {
        let k = sel - 1;
        let e = layers[k];
        let l1 = layers.update(k, LayerEntry { visible: !e.visible, ..e });
        let e1 = l1[k];
        assert(LayerEntry { visible: !e1.visible, ..e1 } == e);
        assert(l1.update(k, LayerEntry { visible: !e1.visible, ..e1 }) =~= layers);
    }
}

/// Every key keeps the layer manager's selection on one of its rows: the
/// built-in layer or one of the layers.
pub proof fn lemma_layers_selection_stays<N>(
    sel: nat,
    layers: Seq<LayerEntry<N>>,
    topo: bool,
    info: bool,
    key: Key,
)
    requires
        sel <= layers.len(),
    ensures
        layers_key_next(sel, layers, topo, info, key).0 <= layers_key_next(sel, layers, topo, info, key).1.len(),
{
}

/// Handle one key press in the layer manager.
pub fn layers_key<N>(
    sel: &mut usize,
    layers: &mut Vec<LayerEntry<N>>,
    topo: &mut bool,
    info: &mut bool,
    key: Key,
) -> (act: LayersKeyAction)
    ensures
        (*final(sel) as nat, final(layers)@, *final(topo), *final(info), act) == layers_key_next(
            *old(sel) as nat,
            old(layers)@,
            *old(topo),
            *old(info),
            key,
        ),
{
    let toggle = match key {
        Key::Enter => true,
        Key::Char(c) => c == ' ',
        _ => false,
    };
    if toggle {
        if *sel == 0 {
            *topo = !*topo;
        } else if *sel - 1 < layers.len() {
            let i = *sel - 1;
            let mut e = layers.remove(i);
            e.visible = !e.visible;
            layers.insert(i, e);
            assert(layers@ =~= old(layers)@.update(i as int, e));
        }
        return LayersKeyAction::Stay;
    }
    match key {
        Key::Esc => LayersKeyAction::Back,
        Key::Up => {
            if *sel > 0 {
                *sel = *sel - 1;
            }
            LayersKeyAction::Stay
        },
        Key::Down => {
            if *sel < layers.len() {
                *sel = *sel + 1;
            }
            LayersKeyAction::Stay
        },
        Key::Char(c) => {
            if c == 'q' || c == 'Q' {
                LayersKeyAction::Back
            } else if c == 'i' || c == 'I' {
                *info = !*info;
                LayersKeyAction::Stay
            } else if c == 'd' || c == 'D' {
                if *sel > 0 && *sel - 1 < layers.len() {
                    layers.remove(*sel - 1);
                    if *sel > layers.len() {
                        *sel = *sel - 1;
                    }
                }
                LayersKeyAction::Stay
            } else {
                LayersKeyAction::Stay
            }
        },
        _ => LayersKeyAction::Stay,
    }
}

// ── Text-entry overlays ──────────────────────────────────────────────────────

/// What the application does after a key in the GeoJSON import overlay.
#[derive(Debug, Clone, Copy, PartialEq, Eq, Structural)]
pub enum ImportKeyAction {
    Stay,
    /// Close the overlay.
    Close,
    /// Load the file named in the field as one layer.
    Load,
    /// Load it split into one layer per kind of geometry.
    LoadSplit,
}

/// The next path field, error and action for key `key` in the import overlay.
pub open spec fn import_key_next(buf: Seq<char>, error: Option<Seq<char>>, key: Key) -> (
    Seq<char>,
    Option<Seq<char>>,
    ImportKeyAction,
) {
    match key {
        Key::Esc => (buf, None, ImportKeyAction::Close),
        Key::Tab => (Seq::empty(), None, ImportKeyAction::Stay),
        Key::Backspace => (pop_seq(buf), error, ImportKeyAction::Stay),
        Key::Enter => (buf, error, ImportKeyAction::Load),
        Key::Char(c) => if c == 's' || c == 'S' {
            (buf, error, ImportKeyAction::LoadSplit)
        } else {
            (buf.push(c), error, ImportKeyAction::Stay)
        },
        _ => (buf, error, ImportKeyAction::Stay),
    }
}

/// Handle one key press in the GeoJSON import overlay.
pub fn import_key(buf: &mut String, error: &mut Option<String>, key: Key) -> (act: ImportKeyAction)
    ensures
        (final(buf)@, opt_text(*final(error)), act) == import_key_next(old(buf)@, opt_text(*old(error)), key),
{
    match key {
        Key::Esc => {
            *error = None;
            ImportKeyAction::Close
        },
        Key::Tab => {
            *buf = String::new();
            *error = None;
            ImportKeyAction::Stay
        },
        Key::Backspace => {
            pop_char(buf);
            ImportKeyAction::Stay
        },
        Key::Enter => ImportKeyAction::Load,
        Key::Char(c) => {
            if c == 's' || c == 'S' {
                ImportKeyAction::LoadSplit
            } else {
                push_char(buf, c);
                ImportKeyAction::Stay
            }
        },
        _ => ImportKeyAction::Stay,
    }
}

/// What the application does after a key in the bookmark overlay.
#[derive(Debug, Clone, PartialEq, Eq)]
pub enum BookmarkKeyAction {
    Stay,
    /// Close the overlay.
    Close,
    /// Put the current position, formatted, into the name field.
    FillPosition,
    /// Save a bookmark with this name and close the overlay.
    Save(String),
}

/// The name a bookmark is saved under: the field, or `Bookmark` when it holds
/// only white space.
pub open spec fn bookmark_name(buf: Seq<char>) -> Seq<char> {
    if trimmed(buf).len() == 0 { "Bookmark"@ } else { buf }
}

/// Handle one key press in the bookmark overlay.
pub fn bookmark_key(buf: &mut String, key: Key) -> (act: BookmarkKeyAction)
    ensures
        match key {
            Key::Esc => final(buf)@.len() == 0 && act == BookmarkKeyAction::Close,
            Key::Tab => final(buf)@ == old(buf)@ && act == BookmarkKeyAction::FillPosition,
            Key::Backspace => final(buf)@ == pop_seq(old(buf)@) && act == BookmarkKeyAction::Stay,
            Key::Enter => final(buf)@.len() == 0 && act is Save && act->Save_0@ == bookmark_name(
                old(buf)@,
            ),
            Key::Char(c) => final(buf)@ == old(buf)@.push(c) && act == BookmarkKeyAction::Stay,
            _ => final(buf)@ == old(buf)@ && act == BookmarkKeyAction::Stay,
        },
{
    match key {
        Key::Esc => {
            *buf = String::new();
            BookmarkKeyAction::Close
        },
        Key::Tab => BookmarkKeyAction::FillPosition,
        Key::Backspace => {
            pop_char(buf);
            BookmarkKeyAction::Stay
        },
        Key::Enter => {
            let (a, b) = trim_bounds(buf.as_str());
            let name = if a == b {
                string_from("Bookmark")
            } else {
                buf.clone()
            };
            *buf = String::new();
            BookmarkKeyAction::Save(name)
        },
        Key::Char(c) => {
            push_char(buf, c);
            BookmarkKeyAction::Stay
        },
        _ => BookmarkKeyAction::Stay,
    }
}

// ── Marker list, zoom explorer, confirmations ───────────────────────────────

/// What the application does after a marker list key.
#[derive(Debug, Clone, Copy, PartialEq, Eq, Structural)]
pub enum MarkerListAction {
    Stay,
    ToMenu,
    /// Open the marker overlay on the selected marker.
    Edit,
    /// Ask whether to delete the selected marker.
    ConfirmDelete,
    /// Turn the globe to the selected marker.
    ShowOnGlobe,
    /// Centre the flat map on the selected marker.
    ShowOnMap,
    /// Ask whether to delete every marker.
    ConfirmClear,
}

/// The next selected row and the action for key `key` in a list of `count`
/// markers.
pub open spec fn marker_list_key_next(sel: nat, count: nat, key: Key) -> (nat, MarkerListAction) {
    match key {
        Key::Esc => (sel, MarkerListAction::ToMenu),
        Key::Up => (minus_one(sel), MarkerListAction::Stay),
        Key::Down => if count > 0 && sel + 1 < count {
            (sel + 1, MarkerListAction::Stay)
        } else {
            (sel, MarkerListAction::Stay)
        },
        Key::Char(c) => if c == 'q' {
            (sel, MarkerListAction::ToMenu)
        } else if c == 'e' || c == 'E' {
            (sel, MarkerListAction::Edit)
        } else if c == 'd' || c == 'D' {
            (sel, if count > 0 { MarkerListAction::ConfirmDelete } else { MarkerListAction::Stay })
        } else if c == 'g' || c == 'G' {
            (sel, MarkerListAction::ShowOnGlobe)
        } else if c == 'p' || c == 'P' {
            (sel, MarkerListAction::ShowOnMap)
        } else if c == 'x' || c == 'X' {
            (sel, if count > 0 { MarkerListAction::ConfirmClear } else { MarkerListAction::Stay })
        } else {
            (sel, MarkerListAction::Stay)
        },
        _ => (sel, MarkerListAction::Stay),
    }
}

/// Handle one key press in the marker list.
pub fn marker_list_key(sel: &mut usize, count: usize, key: Key) -> (act: MarkerListAction)
    ensures
        (*final(sel) as nat, act) == marker_list_key_next(*old(sel) as nat, count as nat, key),
{
    match key {
        Key::Esc => MarkerListAction::ToMenu,
        Key::Up => {
            if *sel > 0 {
                *sel = *sel - 1;
            }
            MarkerListAction::Stay
        },
        Key::Down => {
            if count > 0 && *sel < count - 1 {
                *sel = *sel + 1;
            }
            MarkerListAction::Stay
        },
        Key::Char(c) => {
            if c == 'q' {
                MarkerListAction::ToMenu
            } else if c == 'e' || c == 'E' {
                MarkerListAction::Edit
            } else if c == 'd' || c == 'D' {
                if count > 0 { MarkerListAction::ConfirmDelete } else { MarkerListAction::Stay }
            } else if c == 'g' || c == 'G' {
                MarkerListAction::ShowOnGlobe
            } else if c == 'p' || c == 'P' {
                MarkerListAction::ShowOnMap
            } else if c == 'x' || c == 'X' {
                if count > 0 { MarkerListAction::ConfirmClear } else { MarkerListAction::Stay }
            } else {
                MarkerListAction::Stay
            }
        },
        _ => MarkerListAction::Stay,
    }
}

/// The row shown as selected in a list of `len`: `sel`, or the last row when
/// `sel` is past it (0 for an empty list).
pub fn selected_row(sel: usize, len: usize) -> (r: usize)
    ensures
        r == if sel < minus_one(len as nat) { sel as nat } else { minus_one(len as nat) },
{
    let last = if len > 0 { len - 1 } else { 0 };
    if sel < last { sel } else { last }
}

/// The selection after a delete leaves `count` markers: moved onto the last
/// one when it was past it.
pub fn selection_after_delete(sel: usize, count: usize) -> (r: usize)
    ensures
        r == if sel >= count && count > 0 { (count - 1) as usize } else { sel },
{
    if sel >= count && count > 0 { count - 1 } else { sel }
}

/// `Y` or `y` answers a confirmation; any other key cancels it.
pub fn confirms(key: Key) -> (b: bool)
    ensures
        b == (key == Key::Char('y') || key == Key::Char('Y')),
{
    match key {
        Key::Char(c) => c == 'y' || c == 'Y',
        _ => false,
    }
}

/// What the application does after a zoom explorer key.
#[derive(Debug, Clone, Copy, PartialEq, Eq, Structural)]
pub enum ZoomKeyAction {
    Stay,
    ToMenu,
}

/// Handle one key press in the zoom explorer: up, `+` or `=` zoom in, down or
/// `-` zoom out, within 0–20.
pub fn zoom_explorer_key(zoom: &mut u8, key: Key) -> (act: ZoomKeyAction)
    ensures
        match key {
            Key::Esc => act == ZoomKeyAction::ToMenu && *final(zoom) == *old(zoom),
            Key::Up => act == ZoomKeyAction::Stay && *final(zoom) == zoomed_in(*old(zoom)),
            Key::Down => act == ZoomKeyAction::Stay && *final(zoom) == zoomed_out(*old(zoom)),
            Key::Char(c) => if c == 'q' {
                act == ZoomKeyAction::ToMenu && *final(zoom) == *old(zoom)
            } else if c == '+' || c == '=' {
                act == ZoomKeyAction::Stay && *final(zoom) == zoomed_in(*old(zoom))
            } else if c == '-' {
                act == ZoomKeyAction::Stay && *final(zoom) == zoomed_out(*old(zoom))
            } else {
                act == ZoomKeyAction::Stay && *final(zoom) == *old(zoom)
            },
            _ => act == ZoomKeyAction::Stay && *final(zoom) == *old(zoom),
        },
{
    match key {
        Key::Esc => ZoomKeyAction::ToMenu,
        Key::Up => {
            *zoom = zoom_in(*zoom);
            ZoomKeyAction::Stay
        },
        Key::Down => {
            *zoom = zoom_out(*zoom);
            ZoomKeyAction::Stay
        },
        Key::Char(c) => {
            if c == 'q' {
                ZoomKeyAction::ToMenu
            } else if c == '+' || c == '=' {
                *zoom = zoom_in(*zoom);
                ZoomKeyAction::Stay
            } else if c == '-' {
                *zoom = zoom_out(*zoom);
                ZoomKeyAction::Stay
            } else {
                ZoomKeyAction::Stay
            }
        },
        _ => ZoomKeyAction::Stay,
    }
}

/// One zoom level in, at most 20.
pub open spec fn zoomed_in(z: u8) -> u8 {
    if z < ZOOM_MAX { (z + 1) as u8 } else { z }
}

/// One zoom level out, at least 0.
pub open spec fn zoomed_out(z: u8) -> u8 {
    if z > ZOOM_MIN { (z - 1) as u8 } else { z }
}

/// Zoom in one level (at most 20).
pub fn zoom_in(z: u8) -> (r: u8)
    ensures
        r == zoomed_in(z),
{
    if z < ZOOM_MAX { z + 1 } else { z }
}

/// Zoom out one level (at least 0).
pub fn zoom_out(z: u8) -> (r: u8)
    ensures
        r == zoomed_out(z),
{
    if z > ZOOM_MIN { z - 1 } else { z }
}

/// Zooming in then out (or out then in) comes back to the same level away
/// from the ends of the range, and zooming never leaves levels 0–20.
pub proof fn lemma_zoom_in_out(z: u8)
    requires
        ZOOM_MIN <= z <= ZOOM_MAX,
    ensures
        z < ZOOM_MAX ==> zoomed_out(zoomed_in(z)) == z,
        z > ZOOM_MIN ==> zoomed_in(zoomed_out(z)) == z,
        ZOOM_MIN <= zoomed_in(z) <= ZOOM_MAX,
        ZOOM_MIN <= zoomed_out(z) <= ZOOM_MAX,
{
}

// ── Globe and flat map ───────────────────────────────────────────────────────

/// What a key asks of the globe or the flat map.
#[derive(Debug, Clone, Copy, PartialEq, Eq, Structural)]
pub enum ViewKeyAction {
    Stay,
    ToMenu,
    /// Leave marker placement.
    CancelPlacing,
    /// Open the marker overlay at the aim point.
    PlaceHere,
    /// Turn (globe) or pan (map) west.
    West,
    /// Turn or pan east.
    East,
    /// Tilt or pan north.
    North,
    /// Tilt or pan south.
    South,
    ZoomIn,
    ZoomOut,
    /// Pause or resume the globe's rotation.
    ToggleAnimation,
    /// Show the aim point for a new marker.
    StartPlacing,
    /// Open the GeoJSON import overlay.
    OpenImport,
    /// Open the layer manager.
    OpenLayers,
    /// Open the bookmark overlay.
    OpenBookmark,
    /// Ask whether to delete every marker (when there are any).
    ConfirmClear,
    /// Switch the elevation layer on or off.
    ToggleTopo,
}

/// The action of key `key` while a marker is being placed: Esc cancels,
/// Enter places, arrows and `a`/`d` move the aim.
pub open spec fn placing_action(key: Key) -> ViewKeyAction {
    match key {
        Key::Esc => ViewKeyAction::CancelPlacing,
        Key::Enter => ViewKeyAction::PlaceHere,
        Key::Left => ViewKeyAction::West,
        Key::Right => ViewKeyAction::East,
        Key::Up => ViewKeyAction::North,
        Key::Down => ViewKeyAction::South,
        Key::Char(c) => if c == 'a' {
            ViewKeyAction::West
        } else if c == 'd' {
            ViewKeyAction::East
        } else {
            ViewKeyAction::Stay
        },
        _ => ViewKeyAction::Stay,
    }
}

/// The letter commands both views share: `m` place, `i` import, `l` layers,
/// `b` bookmark, `x` clear markers, `t` elevation layer (either case).
pub open spec fn shared_letter(c: char) -> ViewKeyAction {
    if c == 'm' || c == 'M' {
        ViewKeyAction::StartPlacing
    } else if c == 'i' || c == 'I' {
        ViewKeyAction::OpenImport
    } else if c == 'l' || c == 'L' {
        ViewKeyAction::OpenLayers
    } else if c == 'b' || c == 'B' {
        ViewKeyAction::OpenBookmark
    } else if c == 'x' || c == 'X' {
        ViewKeyAction::ConfirmClear
    } else if c == 't' || c == 'T' {
        ViewKeyAction::ToggleTopo
    } else {
        ViewKeyAction::Stay
    }
}

/// The action of key `key` on the globe.
pub open spec fn globe_key_action(placing: bool, key: Key) -> ViewKeyAction {
    if placing {
        placing_action(key)
    } else {
        match key {
            Key::Esc => ViewKeyAction::ToMenu,
            Key::Left => ViewKeyAction::West,
            Key::Right => ViewKeyAction::East,
            Key::Up => ViewKeyAction::North,
            Key::Down => ViewKeyAction::South,
            Key::Char(c) => if c == 'q' {
                ViewKeyAction::ToMenu
            } else if c == 'a' {
                ViewKeyAction::West
            } else if c == 'd' {
                ViewKeyAction::East
            } else if c == 'w' || c == 'W' {
                ViewKeyAction::ZoomIn
            } else if c == 's' || c == 'S' {
                ViewKeyAction::ZoomOut
            } else if c == ' ' {
                ViewKeyAction::ToggleAnimation
            } else {
                shared_letter(c)
            },
            _ => ViewKeyAction::Stay,
        }
    }
}

/// The action of key `key` on the flat map.
pub open spec fn map_key_action(placing: bool, key: Key) -> ViewKeyAction {
    if placing {
        placing_action(key)
    } else {
        match key {
            Key::Esc => ViewKeyAction::ToMenu,
            Key::Left => ViewKeyAction::West,
            Key::Right => ViewKeyAction::East,
            Key::Up => ViewKeyAction::North,
            Key::Down => ViewKeyAction::South,
            Key::Char(c) => if c == 'q' {
                ViewKeyAction::ToMenu
            } else if c == 'a' {
                ViewKeyAction::West
            } else if c == 'd' {
                ViewKeyAction::East
            } else if c == 'w' || c == 'W' || c == '+' || c == '=' {
                ViewKeyAction::ZoomIn
            } else if c == 's' || c == 'S' || c == '-' {
                ViewKeyAction::ZoomOut
            } else {
                shared_letter(c)
            },
            _ => ViewKeyAction::Stay,
        }
    }
}

fn placing_key(key: Key) -> (a: ViewKeyAction)
    ensures
        a == placing_action(key),
{
    match key {
        Key::Esc => ViewKeyAction::CancelPlacing,
        Key::Enter => ViewKeyAction::PlaceHere,
        Key::Left => ViewKeyAction::West,
        Key::Right => ViewKeyAction::East,
        Key::Up => ViewKeyAction::North,
        Key::Down => ViewKeyAction::South,
        Key::Char(c) => {
            if c == 'a' {
                ViewKeyAction::West
            } else if c == 'd' {
                ViewKeyAction::East
            } else {
                ViewKeyAction::Stay
            }
        },
        _ => ViewKeyAction::Stay,
    }
}

fn shared_letter_key(c: char) -> (a: ViewKeyAction)
    ensures
        a == shared_letter(c),
{
    if c == 'm' || c == 'M' {
        ViewKeyAction::StartPlacing
    } else if c == 'i' || c == 'I' {
        ViewKeyAction::OpenImport
    } else if c == 'l' || c == 'L' {
        ViewKeyAction::OpenLayers
    } else if c == 'b' || c == 'B' {
        ViewKeyAction::OpenBookmark
    } else if c == 'x' || c == 'X' {
        ViewKeyAction::ConfirmClear
    } else if c == 't' || c == 'T' {
        ViewKeyAction::ToggleTopo
    } else {
        ViewKeyAction::Stay
    }
}

/// The arrow keys move the view in their own direction, on the globe and on
/// the flat map alike, whether or not a marker is being placed: Up north,
/// Down south, Left west, Right east; so Up and Down ask for opposite moves,
/// and so do Left and Right.
pub proof fn lemma_arrows_move_their_way(placing: bool)
    ensures
        globe_key_action(placing, Key::Up) == ViewKeyAction::North,
        globe_key_action(placing, Key::Down) == ViewKeyAction::South,
        globe_key_action(placing, Key::Left) == ViewKeyAction::West,
        globe_key_action(placing, Key::Right) == ViewKeyAction::East,
        map_key_action(placing, Key::Up) == ViewKeyAction::North,
        map_key_action(placing, Key::Down) == ViewKeyAction::South,
        map_key_action(placing, Key::Left) == ViewKeyAction::West,
        map_key_action(placing, Key::Right) == ViewKeyAction::East,
        globe_key_action(placing, Key::Up) != globe_key_action(placing, Key::Down),
        globe_key_action(placing, Key::Left) != globe_key_action(placing, Key::Right),
        map_key_action(placing, Key::Up) != map_key_action(placing, Key::Down),
        map_key_action(placing, Key::Left) != map_key_action(placing, Key::Right),
{
}

/// Decide what a key does on the globe; `placing` while a marker is aimed.
pub fn globe_key(placing: bool, key: Key) -> (a: ViewKeyAction)
    ensures
        a == globe_key_action(placing, key),
{
    if placing {
        return placing_key(key);
    }
    match key {
        Key::Esc => ViewKeyAction::ToMenu,
        Key::Left => ViewKeyAction::West,
        Key::Right => ViewKeyAction::East,
        Key::Up => ViewKeyAction::North,
        Key::Down => ViewKeyAction::South,
        Key::Char(c) => {
            if c == 'q' {
                ViewKeyAction::ToMenu
            } else if c == 'a' {
                ViewKeyAction::West
            } else if c == 'd' {
                ViewKeyAction::East
            } else if c == 'w' || c == 'W' {
                ViewKeyAction::ZoomIn
            } else if c == 's' || c == 'S' {
                ViewKeyAction::ZoomOut
            } else if c == ' ' {
                ViewKeyAction::ToggleAnimation
            } else {
                shared_letter_key(c)
            }
        },
        _ => ViewKeyAction::Stay,
    }
}

/// Decide what a key does on the flat map; `placing` while a marker is aimed.
pub fn map_key(placing: bool, key: Key) -> (a: ViewKeyAction)
    ensures
        a == map_key_action(placing, key),
{
    if placing {
        return placing_key(key);
    }
    match key {
        Key::Esc => ViewKeyAction::ToMenu,
        Key::Left => ViewKeyAction::West,
        Key::Right => ViewKeyAction::East,
        Key::Up => ViewKeyAction::North,
        Key::Down => ViewKeyAction::South,
        Key::Char(c) => {
            if c == 'q' {
                ViewKeyAction::ToMenu
            } else if c == 'a' {
                ViewKeyAction::West
            } else if c == 'd' {
                ViewKeyAction::East
            } else if c == 'w' || c == 'W' || c == '+' || c == '=' {
                ViewKeyAction::ZoomIn
            } else if c == 's' || c == 'S' || c == '-' {
                ViewKeyAction::ZoomOut
            } else {
                shared_letter_key(c)
            }
        },
        _ => ViewKeyAction::Stay,
    }
}

// ── Who takes a key ──────────────────────────────────────────────────────────

/// Which part of the application a key press goes to.
#[derive(Debug, Clone, Copy, PartialEq, Eq, Structural)]
pub enum KeyRoute {
    /// The prompt confirming a marker's deletion.
    ConfirmDelete,
    /// The prompt confirming that all markers are cleared.
    ConfirmClear,
    /// The bookmark name prompt.
    Bookmark,
    /// The marker editing overlay.
    MarkerInput,
    /// The calculator.
    Calculator,
    /// The shape editor.
    ShapeEditor,
    /// Closes the layer details panel.
    CloseLayerInfo,
    /// The layer manager.
    Layers,
    /// The GeoJSON import prompt.
    Import,
    /// The current view's own keys.
    View,
}

/// Which open prompt, overlay or view takes a key: the delete and clear
/// prompts first, then the bookmark prompt, the marker overlay, the
/// calculator and shape editor views, the layer details panel, the layer
/// manager, the import prompt, and last the view itself.
pub open spec fn key_route(
    confirm_delete: bool,
    confirm_clear: bool,
    bookmarking: bool,
    marker_input_open: bool,
    view: Screen,
    layer_info: bool,
    importing: bool,
) -> KeyRoute {
    if confirm_delete {
        KeyRoute::ConfirmDelete
    } else if confirm_clear {
        KeyRoute::ConfirmClear
    } else if bookmarking {
        KeyRoute::Bookmark
    } else if marker_input_open {
        KeyRoute::MarkerInput
    } else if view == Screen::Calculator {
        KeyRoute::Calculator
    } else if view == Screen::ShapeEditor {
        KeyRoute::ShapeEditor
    } else if layer_info {
        KeyRoute::CloseLayerInfo
    } else if view == Screen::Layers {
        KeyRoute::Layers
    } else if importing {
        KeyRoute::Import
    } else {
        KeyRoute::View
    }
}

/// Routes a key press.
pub fn route_key(
    confirm_delete: bool,
    confirm_clear: bool,
    bookmarking: bool,
    marker_input_open: bool,
    view: Screen,
    layer_info: bool,
    importing: bool,
) -> (r: KeyRoute)
    ensures
        r == key_route(
            confirm_delete,
            confirm_clear,
            bookmarking,
            marker_input_open,
            view,
            layer_info,
            importing,
        ),
{
    if confirm_delete {
        KeyRoute::ConfirmDelete
    } else if confirm_clear {
        KeyRoute::ConfirmClear
    } else if bookmarking {
        KeyRoute::Bookmark
    } else if marker_input_open {
        KeyRoute::MarkerInput
    } else if view == Screen::Calculator {
        KeyRoute::Calculator
    } else if view == Screen::ShapeEditor {
        KeyRoute::ShapeEditor
    } else if layer_info {
        KeyRoute::CloseLayerInfo
    } else if view == Screen::Layers {
        KeyRoute::Layers
    } else if importing {
        KeyRoute::Import
    } else {
        KeyRoute::View
    }
}

/// The diagnostics screen's keys: `Esc` or `q` go back to the menu.
pub fn diagnostics_key(key: Key) -> (back: bool)
    ensures
        back == (key == Key::Esc || key == Key::Char('q')),
{
    match key {
        Key::Esc | Key::Char('q') => true,
        _ => false,
    }
}

} // verus!
