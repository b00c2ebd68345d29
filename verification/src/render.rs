//! Text forms for diagnostics: decimal numbers and the debug form of each
//! component.

use crate::components::Component;
use vstd::prelude::*;
use vstd::string::StringExecFns;

verus! {

/// The character that writes the digit `d`.
pub open spec fn digit(d: int) -> char {
    if d == 0 {
        '0'
    } else if d == 1 {
        '1'
    } else if d == 2 {
        '2'
    } else if d == 3 {
        '3'
    } else if d == 4 {
        '4'
    } else if d == 5 {
        '5'
    } else if d == 6 {
        '6'
    } else if d == 7 {
        '7'
    } else if d == 8 {
        '8'
    } else {
        '9'
    }
}

/// `n` in decimal, most significant digit first, without leading zeros.
pub open spec fn decimal(n: nat) -> Seq<char>
    decreases n,
{
    if n < 10 {
        seq![digit(n as int)]
    } else {
        decimal(n / 10).push(digit((n % 10) as int))
    }
}

/// `n` in decimal, with a minus sign in front where it is negative.
pub open spec fn signed_decimal(n: int) -> Seq<char> {
    if n < 0 {
        seq!['-'] + decimal((-n) as nat)
    } else {
        decimal(n as nat)
    }
}

fn digit_str(d: u64) -> (text: &'static str)
    requires
        d < 10,
    ensures
        text@ == seq![digit(d as int)],
{
    proof {
        reveal_strlit("0");
        reveal_strlit("1");
        reveal_strlit("2");
        reveal_strlit("3");
        reveal_strlit("4");
        reveal_strlit("5");
        reveal_strlit("6");
        reveal_strlit("7");
        reveal_strlit("8");
        reveal_strlit("9");
    }
    let text = if d == 0 {
        "0"
    } else if d == 1 {
        "1"
    } else if d == 2 {
        "2"
    } else if d == 3 {
        "3"
    } else if d == 4 {
        "4"
    } else if d == 5 {
        "5"
    } else if d == 6 {
        "6"
    } else if d == 7 {
        "7"
    } else if d == 8 {
        "8"
    } else {
        "9"
    };
    assert(text@ =~= seq![digit(d as int)]);
    text
}

/// Appends `n` in decimal to `out`.
pub fn push_decimal(out: &mut String, n: u64)
    ensures
        final(out)@ == old(out)@ + decimal(n as nat),
    decreases n,
{
    if n >= 10 {
        push_decimal(out, n / 10);
    }
    out.append(digit_str(n % 10));
    assert(out@ =~= old(out)@ + decimal(n as nat));
}

/// Appends `n` in decimal to `out`, with its sign where it is negative.
pub fn push_signed_decimal(out: &mut String, n: i32)
    ensures
        final(out)@ == old(out)@ + signed_decimal(n as int),
{
    if n < 0 {
        proof {
            reveal_strlit("-");
        }
        out.append("-");
        push_decimal(out, (-(n as i64)) as u64);
        assert(out@ =~= old(out)@ + signed_decimal(n as int));
    } else {
        push_decimal(out, n as u64);
    }
}

/// What `{:?}` of std writes for the string `text`: the string between
/// double quotes, with quotes, backslashes, line breaks and unprintable
/// characters inside it escaped.
pub uninterp spec fn debug_str(text: Seq<char>) -> Seq<char>;

/// `format!("{:?}", text)` of std on a `&str`, which goes through
/// `<str as core::fmt::Debug>::fmt`: the result is a function of the
/// characters of `text` alone, and `debug_str` is its name.
#[verifier::external_body]
fn quoted(text: &str) -> (quoted: String)
    ensures
        quoted@ == debug_str(text@),
{
    format!("{:?}", text)
}

/// The debug form of a sprite whose glyph, quoted, is `quoted`.
pub open spec fn sprite_form(quoted: Seq<char>) -> Seq<char> {
    "Sprite { sprite: "@ + quoted + " }"@
}

/// Renders the debug form of a sprite from its quoted glyph.
pub fn sprite_text(quoted: &str) -> (text: String)
    ensures
        text@ == sprite_form(quoted@),
{
    let mut text = String::new();
    text.append("Sprite { sprite: ");
    text.append(quoted);
    text.append(" }");
    assert(text@ =~= sprite_form(quoted@));
    text
}

/// A list of items with `item` added to it: an empty item adds nothing, and
/// a comma and a space stand between two items.
pub open spec fn with_item(items: Seq<char>, item: Seq<char>) -> Seq<char> {
    if item.len() == 0 {
        items
    } else if items.len() == 0 {
        item
    } else {
        items + ", "@ + item
    }
}

/// Adds `item` to the list `items`.
pub fn push_item(items: &mut String, item: &str)
    ensures
        final(items)@ == with_item(old(items)@, item@),
{
    if !item.is_empty() {
        if !items.as_str().is_empty() {
            items.append(", ");
        }
        items.append(item);
    }
}

impl Component {
    /// The debug form of the value inside, as `{:?}` writes it: the type's
    /// name and its fields.
    pub open spec fn debug_form(self) -> Seq<char> {
        match self {
            Component::Health(health) => "Health("@ + signed_decimal(health.0 as int) + ")"@,
            Component::Position(position) => "Position { x: "@ + signed_decimal(position.x as int)
                + ", y: "@ + signed_decimal(position.y as int) + " }"@,
            Component::Velocity(velocity) => "Velocity { x: "@ + signed_decimal(velocity.x as int)
                + ", y: "@ + signed_decimal(velocity.y as int) + " }"@,
            Component::Sprite(sprite) => sprite_form(debug_str(sprite@)),
            Component::PlayerTag(_) => "PlayerTag"@,
            Component::EnemyTag(_) => "EnemyTag"@,
        }
    }

    /// Renders the debug form.
    pub fn debug_text(&self) -> (text: String)
        ensures
            text@ == self.debug_form(),
    {
        let mut text = String::new();
        match self {
            Component::Health(health) => {
                text.append("Health(");
                push_signed_decimal(&mut text, health.0);
                text.append(")");
            },
            Component::Position(position) => {
                text.append("Position { x: ");
                push_signed_decimal(&mut text, position.x);
                text.append(", y: ");
                push_signed_decimal(&mut text, position.y);
                text.append(" }");
            },
            Component::Velocity(velocity) => {
                text.append("Velocity { x: ");
                push_signed_decimal(&mut text, velocity.x);
                text.append(", y: ");
                push_signed_decimal(&mut text, velocity.y);
                text.append(" }");
            },
            Component::Sprite(sprite) => {
                let glyph = quoted(sprite.as_str());
                text = sprite_text(glyph.as_str());
            },
            Component::PlayerTag(_) => {
                text.append("PlayerTag");
            },
            Component::EnemyTag(_) => {
                text.append("EnemyTag");
            },
        }
        assert(text@ =~= self.debug_form());
        text
    }
}

} // verus!
