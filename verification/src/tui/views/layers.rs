//! Layer manager: which rows the list shows and what they read.
use vstd::prelude::*;
use crate::text::{decimal, lemma_decimal_len_at_least_two, pad_left, pad_right, push_char, push_count, push_spaces, push_str, spaces, string_from};
use crate::tui::app::LayerEntry;
use crate::tui::views::list::{follow_offset, follow_scroll};
use crate::tui::views::wrap::utf8_len;

verus! {

/// A row of the layer list.
#[derive(Debug, Clone, Copy, PartialEq, Eq, Structural)]
pub enum LayerRow {
    /// The built-in topography layer.
    Topo,
    /// The rule under the built-in layer.
    Separator,
    /// The note shown when no GeoJSON layer is loaded.
    NoLayers,
    /// The GeoJSON layer at this index.
    Layer(usize),
}

/// The rows of a layer list with `n` GeoJSON layers, row `selected` picked
/// (0 is the built-in layer) and room for `list_rows` rows: the window
/// follows the selection; the built-in row shows only when the list is not
/// scrolled, the rule whenever there is room, and the GeoJSON layers from
/// two rows above the scroll offset on.
pub open spec fn layer_rows(n: int, selected: int, list_rows: int) -> Seq<LayerRow> {
    let scroll = follow_offset(selected, list_rows);
    let top: Seq<LayerRow> = if scroll == 0 && list_rows > 0 {
        seq![LayerRow::Topo]
    } else {
        Seq::empty()
    };
    let head = if top.len() < list_rows {
        top.push(LayerRow::Separator)
    } else {
        top
    };
    if n == 0 && scroll == 0 {
        if head.len() < list_rows {
            head.push(LayerRow::NoLayers)
        } else {
            head
        }
    } else {
        let first = if scroll > 1 { scroll - 2 } else { 0 };
        let left = if n > first { n - first } else { 0 };
        let room = list_rows - head.len();
        let count = if left < room { left } else { room };
        head + Seq::new(count as nat, |i: int| LayerRow::Layer((first + i) as usize))
    }
}

/// The rows the layer list shows.
pub fn layer_list_rows(n: usize, selected: usize, list_rows: usize) -> (rows: Vec<LayerRow>)
    requires
        list_rows > 0 || selected < usize::MAX,
    ensures
        rows@ == layer_rows(n as int, selected as int, list_rows as int),
        rows@.len() <= list_rows,
{
    let scroll = follow_scroll(selected, list_rows);
    let mut rows: Vec<LayerRow> = Vec::new();
    if scroll == 0 && list_rows > 0 {
        rows.push(LayerRow::Topo);
    }
    if rows.len() < list_rows {
        rows.push(LayerRow::Separator);
    }
    let ghost head = rows@;
    proof {
        let top: Seq<LayerRow> = if scroll == 0 && list_rows > 0 {
            seq![LayerRow::Topo]
        } else {
            Seq::empty()
        };
        let h = if top.len() < list_rows {
            top.push(LayerRow::Separator)
        } else {
            top
        };
        assert(head =~= h);
    }
    if n == 0 && scroll == 0 {
        if rows.len() < list_rows {
            rows.push(LayerRow::NoLayers);
        }
    } else {
        let first = if scroll > 1 { scroll - 2 } else { 0 };
        let mut idx = first;
        while idx < n && rows.len() < list_rows
            invariant
                first <= idx,
                idx <= n || idx == first,
                head.len() <= list_rows,
                rows@.len() == head.len() + (idx - first),
                rows@.len() <= list_rows,
                rows@ == head + Seq::new((idx - first) as nat, |i: int| LayerRow::Layer((first + i) as usize)),
            decreases n - idx,
        {
            rows.push(LayerRow::Layer(idx));
            assert(head + Seq::new((idx + 1 - first) as nat, |i: int| LayerRow::Layer((first + i) as usize))
                =~= (head + Seq::new((idx - first) as nat, |i: int| LayerRow::Layer((first + i) as usize))).push(
                LayerRow::Layer(idx),
            ));
            idx = idx + 1;
        }
    }
    rows
}

/// How many layers are shown: the visible GeoJSON layers, and the built-in
/// one when it is on.
pub open spec fn shown_layers<N>(layers: Seq<LayerEntry<N>>, topo_enabled: bool) -> int {
    layers.filter(|e: LayerEntry<N>| e.visible).len() + if topo_enabled { 1int } else { 0 }
}

/// Number of layers shown.
pub fn shown_layer_count<N>(layers: &[LayerEntry<N>], topo_enabled: bool) -> (k: usize)
    requires
        topo_enabled ==> layers@.len() < usize::MAX,
    ensures
        k == shown_layers(layers@, topo_enabled),
{
    let ghost ls = layers@;
    let mut k: usize = 0;
    let mut i: usize = 0;
    proof {
        reveal(Seq::filter);
        assert(ls.subrange(0, 0) =~= Seq::<LayerEntry<N>>::empty());
    }
    while i < layers.len()
        invariant
            ls == layers@,
            i <= ls.len(),
            k == ls.subrange(0, i as int).filter(|e: LayerEntry<N>| e.visible).len(),
            k <= i,
        decreases ls.len() - i,
    {
        proof {
            assert(ls.subrange(0, i as int + 1) =~= ls.subrange(0, i as int).push(ls[i as int]));
            ls.subrange(0, i as int).lemma_filter_push(ls[i as int], |e: LayerEntry<N>| e.visible);
        }
        if layers[i].visible {
            k = k + 1;
        }
        i = i + 1;
    }
    assert(ls.subrange(0, ls.len() as int) =~= ls);
    if topo_enabled {
        k + 1
    } else {
        k
    }
}

/// The layer manager's title for `total` layers of which `shown` are shown.
pub open spec fn layers_title_text(total: nat, shown: nat) -> Seq<char> {
    " Layers  │  "@ + decimal(total) + " layer"@ + (if total == 1 {
        ""@
    } else {
        "s"@
    }) + "  │  "@ + decimal(shown) + " visible "@
}

/// The layer manager's title: the number of layers, the built-in one
/// included, and how many of them are shown.
pub fn layers_title<N>(layers: &[LayerEntry<N>], topo_enabled: bool) -> (s: String)
    requires
        layers@.len() < usize::MAX,
    ensures
        s@ == layers_title_text((layers@.len() + 1) as nat, shown_layers(layers@, topo_enabled) as nat),
{
    let total = 1 + layers.len();
    let shown = shown_layer_count(layers, topo_enabled);
    let mut s = string_from(" Layers  │  ");
    push_count(&mut s, total);
    push_str(&mut s, " layer");
    if total != 1 {
        push_str(&mut s, "s");
    }
    let ghost mid = s@;
    push_str(&mut s, "  │  ");
    push_count(&mut s, shown);
    push_str(&mut s, " visible ");
    proof {
        if total == 1 {
            reveal_strlit("");
            assert(mid =~= mid + ""@);
        }
    }
    s
}

/// A layer's name as the list shows it: one longer than 30 bytes keeps its
/// first 29 bytes and ends in `…`.
pub open spec fn layer_name_text(label: Seq<char>) -> Seq<char> {
    if utf8_len(label) > 30 {
        vstd::utf8::decode_utf8(vstd::utf8::encode_utf8(label).subrange(0, 29)).push('…')
    } else {
        label
    }
}

/// Can `label` be cut after its 29th byte where it is too long for the list?
pub open spec fn layer_name_cuttable(label: Seq<char>) -> bool {
    utf8_len(label) > 30 ==> vstd::utf8::is_char_boundary(vstd::utf8::encode_utf8(label), 29)
}

/// A layer's name shortened for the list.
pub fn layer_name(label: &str) -> (t: String)
    requires
        layer_name_cuttable(label@),
        utf8_len(label@) <= usize::MAX,
    ensures
        t@ == layer_name_text(label@),
{
    if label.len() > 30 {
        let (head, _) = label.split_at(29);
        proof {
            vstd::utf8::encode_utf8_decode_utf8(head@);
        }
        let mut t = string_from(head);
        push_char(&mut t, '…');
        t
    } else {
        string_from(label)
    }
}

/// The pointer at the selected row.
pub open spec fn pointer_glyph(selected: bool, unicode: bool) -> Seq<char> {
    if !selected {
        " "@
    } else if unicode {
        "►"@
    } else {
        ">"@
    }
}

/// The mark of a shown or hidden layer.
pub open spec fn shown_glyph(shown: bool, unicode: bool) -> Seq<char> {
    if shown {
        if unicode {
            "●"@
        } else {
            "*"@
        }
    } else if unicode {
        "·"@
    } else {
        " "@
    }
}

/// The colour swatch; the list paints it in the layer's colour.
pub open spec fn swatch_glyph(unicode: bool) -> Seq<char> {
    if unicode {
        "■"@
    } else {
        "#"@
    }
}

/// A row of the layer list: pointer, number, shown mark, swatch, name in 30
/// columns, and the feature count (`-` for the built-in layer).
pub open spec fn layer_row_line(
    selected: bool,
    index: nat,
    shown: bool,
    unicode: bool,
    name: Seq<char>,
    features: Option<nat>,
) -> Seq<char> {
    pointer_glyph(selected, unicode) + "  "@ + pad_left(decimal(index), 2) + "  "@ + shown_glyph(
        shown,
        unicode,
    ) + "  "@ + swatch_glyph(unicode) + "  "@ + pad_right(name, 30) + "  "@ + match features {
        Some(k) => decimal(k),
        None => "-"@,
    }
}

/// Appends `n` right-aligned in two columns.
fn push_index(s: &mut String, n: usize)
    ensures
        final(s)@ == old(s)@ + pad_left(decimal(n as nat), 2),
{
    let ghost start = s@;
    if n < 10 {
        push_char(s, ' ');
        assert(decimal(n as nat).len() == 1);
        assert(spaces(2 - decimal(n as nat).len()) =~= seq![' ']);
    } else {
        proof {
            lemma_decimal_len_at_least_two(n as nat);
        }
        assert(spaces(2 - decimal(n as nat).len()) =~= Seq::<char>::empty());
        assert(s@ =~= start + spaces(2 - decimal(n as nat).len()));
    }
    push_count(s, n);
}

/// Appends `name` left-aligned in 30 columns.
fn push_name(s: &mut String, name: &str)
    ensures
        final(s)@ == old(s)@ + pad_right(name@, 30),
{
    push_str(s, name);
    let n = name.unicode_len();
    if n < 30 {
        push_spaces(s, 30 - n);
    } else {
        assert(spaces(30 - name@.len()) =~= Seq::<char>::empty());
    }
}

/// The text of a row of the layer list.
pub fn layer_row_text(
    selected: bool,
    index: usize,
    shown: bool,
    unicode: bool,
    name: &str,
    features: Option<usize>,
) -> (s: String)
    ensures
        s@ == layer_row_line(
            selected,
            index as nat,
            shown,
            unicode,
            name@,
            match features {
                Some(k) => Some(k as nat),
                None => None,
            },
        ),
{
    let mut s = if !selected {
        string_from(" ")
    } else if unicode {
        string_from("►")
    } else {
        string_from(">")
    };
    push_str(&mut s, "  ");
    push_index(&mut s, index);
    push_str(&mut s, "  ");
    let shown_mark = if shown {
        if unicode {
            "●"
        } else {
            "*"
        }
    } else if unicode {
        "·"
    } else {
        " "
    };
    push_str(&mut s, shown_mark);
    push_str(&mut s, "  ");
    push_str(&mut s, if unicode { "■" } else { "#" });
    push_str(&mut s, "  ");
    push_name(&mut s, name);
    push_str(&mut s, "  ");
    match features {
        Some(k) => push_count(&mut s, k),
        None => push_str(&mut s, "-"),
    }
    s
}


/// `" layer"`, or `" layers"` unless there is exactly one.
pub open spec fn layer_noun(n: nat) -> Seq<char> {
    if n == 1 {
        " layer"@
    } else {
        " layers"@
    }
}

/// The map's status-bar note on layers: how many of them are visible, out
/// of how many; nothing when there are none.
pub open spec fn map_layer_note(shown: nat, total: nat) -> Seq<char> {
    if total == 0 {
        Seq::empty()
    } else {
        "  │  "@ + decimal(shown) + "/"@ + decimal(total) + layer_noun(total)
    }
}

/// The globe's status-bar note on layers: how many are loaded; nothing when
/// there are none.
pub open spec fn globe_layer_note(total: nat) -> Seq<char> {
    if total == 0 {
        Seq::empty()
    } else {
        "  │  "@ + decimal(total) + layer_noun(total)
    }
}

/// Appends `" layer"` or `" layers"`.
fn push_layer_noun(s: &mut String, n: usize)
    ensures
        final(s)@ == old(s)@ + layer_noun(n as nat),
{
    if n == 1 {
        push_str(s, " layer");
    } else {
        push_str(s, " layers");
    }
}

/// The map's status-bar note on layers.
pub fn map_layer_info<N>(layers: &[LayerEntry<N>]) -> (s: String)
    ensures
        s@ == map_layer_note(layers@.filter(|e: LayerEntry<N>| e.visible).len(), layers@.len()),
{
    if layers.len() == 0 {
        proof {
            reveal_strlit("");
        }
        return string_from("");
    }
    let shown = shown_layer_count(layers, false);
    let mut s = string_from("  │  ");
    push_count(&mut s, shown);
    push_str(&mut s, "/");
    push_count(&mut s, layers.len());
    push_layer_noun(&mut s, layers.len());
    s
}

/// The globe's status-bar note on layers.
pub fn globe_layer_info<N>(layers: &[LayerEntry<N>]) -> (s: String)
    ensures
        s@ == globe_layer_note(layers@.len()),
{
    if layers.len() == 0 {
        proof {
            reveal_strlit("");
        }
        return string_from("");
    }
    let mut s = string_from("  │  ");
    push_count(&mut s, layers.len());
    push_layer_noun(&mut s, layers.len());
    s
}

} // verus!
