//! Rows of buttons below a message.

use crate::channels::settings;
use crate::json;
use crate::json::{field, record, Json, Tree};
use crate::text as t;
use vstd::prelude::*;
use vstd::string::*;

verus! {

/// Whose buttons they are.
#[derive(Clone, Copy, Debug, PartialEq, Eq, Structural)]
pub enum Style {
    Telegram,
    Discord,
}

/// A button with its label and the data that it stands for.
pub open spec fn button_tree(style: Style, b: (Seq<char>, Seq<char>)) -> Tree {
    match style {
        Style::Telegram => Tree::Record(seq![("text"@, Tree::Text(b.0)), ("callback_data"@, Tree::Text(b.1))]),
        Style::Discord => Tree::Record(
            seq![
                ("type"@, Tree::Int(2)),
                ("style"@, Tree::Int(1)),
                ("label"@, Tree::Text(t::head(b.0, 80))),
                ("custom_id"@, Tree::Text(b.1)),
            ],
        ),
    }
}

/// A row of buttons.
pub open spec fn row_of(style: Style, items: Seq<Tree>) -> Tree {
    match style {
        Style::Telegram => Tree::List(items),
        Style::Discord => Tree::Record(seq![("type"@, Tree::Int(1)), ("components"@, Tree::List(items))]),
    }
}

/// How many rows `n` buttons take.
pub open spec fn row_count(n: int, columns: int) -> int {
    (n + columns - 1) / columns
}

pub open spec fn button_trees(style: Style, buttons: Seq<(Seq<char>, Seq<char>)>) -> Seq<Tree> {
    buttons.map_values(|x: (Seq<char>, Seq<char>)| button_tree(style, x))
}

/// The buttons of one row.
pub open spec fn row_tree(style: Style, buttons: Seq<(Seq<char>, Seq<char>)>, columns: int, row: int) -> Tree {
    let a = row * columns;
    let b = if a + columns < buttons.len() {
        a + columns
    } else {
        buttons.len() as int
    };
    row_of(style, button_trees(style, buttons.subrange(a, b)))
}

/// The buttons in rows of `columns`, the last of which may be shorter.
pub open spec fn rows(style: Style, buttons: Seq<(Seq<char>, Seq<char>)>, columns: int) -> Seq<Tree> {
    Seq::new(row_count(buttons.len() as int, columns) as nat, |r: int| row_tree(style, buttons, columns, r))
}

fn button_json(style: Style, label: &str, data: &str) -> (r: Json)
    ensures
        r@ == button_tree(style, (label@, data@)),
{
    let mut f: Vec<(String, Json)> = Vec::new();
    match style {
        Style::Telegram => {
            field(&mut f, "text", Json::Text(label.to_owned()));
            field(&mut f, "callback_data", Json::Text(data.to_owned()));
            assert(json::entries(f@) =~= seq![
                ("text"@, Tree::Text(label@)),
                ("callback_data"@, Tree::Text(data@)),
            ]);
        },
        Style::Discord => {
            let short = t::take_chars(label, 80);
            field(&mut f, "type", Json::Int(2));
            field(&mut f, "style", Json::Int(1));
            field(&mut f, "label", Json::Text(short));
            field(&mut f, "custom_id", Json::Text(data.to_owned()));
            assert(json::entries(f@) =~= seq![
                ("type"@, Tree::Int(2)),
                ("style"@, Tree::Int(1)),
                ("label"@, Tree::Text(t::head(label@, 80))),
                ("custom_id"@, Tree::Text(data@)),
            ]);
        },
    }
    record(f)
}

fn row_json(style: Style, buttons: &Vec<(String, String)>, a: usize, b: usize) -> (r: Json)
    requires
        a <= b <= buttons@.len(),
    ensures
        r@ == row_of(
            style,
            button_trees(style, settings::button_views(buttons@).subrange(a as int, b as int)),
        ),
{
    let mut v: Vec<Json> = Vec::new();
    let ghost all = settings::button_views(buttons@);
    let mut i: usize = a;
    while i < b
        invariant
            a <= i <= b <= buttons@.len(),
            all == settings::button_views(buttons@),
            v.len() == i - a,
            forall|k: int| 0 <= k < i - a ==> (#[trigger] v@[k])@ == button_tree(style, all[a + k]),
        decreases b - i,
    {
        v.push(button_json(style, buttons[i].0.as_str(), buttons[i].1.as_str()));
        i += 1;
    }
    let ghost items = button_trees(style, all.subrange(a as int, b as int));
    assert(json::trees(v@) =~= items);
    match style {
        Style::Telegram => json::list(v),
        Style::Discord => {
            let mut f: Vec<(String, Json)> = Vec::new();
            field(&mut f, "type", Json::Int(1));
            field(&mut f, "components", json::list(v));
            assert(json::entries(f@) =~= seq![("type"@, Tree::Int(1)), ("components"@, Tree::List(items))]);
            record(f)
        },
    }
}

/// The rows as a list.
pub fn rows_json(style: Style, buttons: &Vec<(String, String)>, columns: usize) -> (r: Json)
    requires
        columns > 0,
    ensures
        r@ == Tree::List(rows(style, settings::button_views(buttons@), columns as int)),
{
    let ghost all = settings::button_views(buttons@);
    let n: usize = buttons.len();
    let mut v: Vec<Json> = Vec::new();
    let mut a: usize = 0;
    proof {
        let c = columns as int;
        assert((c - 1) / c == 0) by (nonlinear_arith)
            requires
                c > 0,
        ;
    }
    while a < n
        invariant
            columns > 0,
            n == buttons@.len(),
            all == settings::button_views(buttons@),
            a <= n,
            a == n || a == v@.len() * columns,
            a == n ==> v@.len() == row_count(n as int, columns as int),
            forall|k: int| 0 <= k < v@.len() ==> (#[trigger] v@[k])@ == row_tree(style, all, columns as int, k),
        decreases n - a,
    {
        let b: usize = if columns < n - a {
            a + columns
        } else {
            n
        };
        let ghost k = v@.len() as int;
        v.push(row_json(style, buttons, a, b));
        proof {
            let c = columns as int;
            assert((k + 1) * c == k * c + c) by (nonlinear_arith);
            assert(v@[k]@ == row_tree(style, all, c, k));
            if b == n {
                assert(k + 1 == (n + c - 1) / c) by (nonlinear_arith)
                    requires
                        c > 0,
                        k * c < n,
                        n <= k * c + c,
                ;
            }
        }
        a = b;
    }
    assert(json::trees(v@) =~= rows(style, all, columns as int));
    json::list(v)
}

/// A button carries its label and what it stands for.
pub proof fn law_a_button_carries_what_it_stands_for(label: Seq<char>, data: Seq<char>)
    ensures
        button_tree(Style::Telegram, (label, data)).text_at("text"@) == Some(label),
        button_tree(Style::Telegram, (label, data)).text_at("callback_data"@) == Some(data),
        button_tree(Style::Discord, (label, data)).text_at("custom_id"@) == Some(data),
        label.len() <= 80 ==> button_tree(Style::Discord, (label, data)).text_at("label"@) == Some(label),
{
    reveal_strlit("text");
    reveal_strlit("callback_data");
    reveal_strlit("type");
    reveal_strlit("style");
    reveal_strlit("label");
    reveal_strlit("custom_id");
    assert("text"@.len() == 4 && "text"@[0] == 't' && "text"@[1] == 'e' && "text"@[2] == 'x' && "text"@[3] == 't');
    assert("callback_data"@.len() == 13 && "callback_data"@[0] == 'c' && "callback_data"@[1] == 'a' && "callback_data"@[2] == 'l' && "callback_data"@[3] == 'l' && "callback_data"@[4] == 'b' && "callback_data"@[5] == 'a');
    assert("type"@.len() == 4 && "type"@[0] == 't' && "type"@[1] == 'y' && "type"@[2] == 'p' && "type"@[3] == 'e');
    assert("style"@.len() == 5 && "style"@[0] == 's' && "style"@[1] == 't' && "style"@[2] == 'y' && "style"@[3] == 'l' && "style"@[4] == 'e');
    assert("label"@.len() == 5 && "label"@[0] == 'l' && "label"@[1] == 'a' && "label"@[2] == 'b' && "label"@[3] == 'e' && "label"@[4] == 'l');
    assert("custom_id"@.len() == 9 && "custom_id"@[0] == 'c' && "custom_id"@[1] == 'u' && "custom_id"@[2] == 's' && "custom_id"@[3] == 't' && "custom_id"@[4] == 'o' && "custom_id"@[5] == 'm');
    reveal_with_fuel(json::entry_from, 5);
}

/// The buttons stand in rows of the width that was asked for, in their order, and
/// none is left out.
pub proof fn law_every_button_has_its_place(buttons: Seq<(Seq<char>, Seq<char>)>, columns: int, row: int, k: int)
    requires
        columns > 0,
        0 <= row,
        0 <= k < columns,
        row * columns + k < buttons.len(),
    ensures
        row < rows(Style::Telegram, buttons, columns).len(),
        rows(Style::Telegram, buttons, columns)[row] matches Tree::List(items) && k < items.len() && items[k]
            == button_tree(Style::Telegram, buttons[row * columns + k]),
{
    let n = buttons.len() as int;
    assert(row < (n + columns - 1) / columns) by (nonlinear_arith)
        requires
            columns > 0,
            0 <= row,
            0 <= k < columns,
            row * columns + k < n,
    ;
    let a = row * columns;
    assert(a >= 0) by (nonlinear_arith)
        requires
            columns > 0,
            0 <= row,
            a == row * columns,
    ;
    let b = if a + columns < n {
        a + columns
    } else {
        n
    };
    let part = buttons.subrange(a, b);
    assert(part[k] == buttons[a + k]);
    assert(button_trees(Style::Telegram, part)[k] == button_tree(Style::Telegram, part[k]));
}

} // verus!
