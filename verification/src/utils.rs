//! Rendering of element properties for the details pane, and error texts.

use vstd::prelude::*;
use crate::models::{DetailRow, ProcessWindow, RectDto, ScreenRect};
use crate::node_path::{shortcut_id_of, shortcut_id_spec};
use crate::text::{decimal, i64_to_decimal, is_blank, is_blank_seq, push_char, push_str, signed_decimal};

verus! {

// ---------------------------------------------------------------------------
// Rectangles
// ---------------------------------------------------------------------------

/// The width and height of `r` (right minus left plus one, and so on), and
/// the differences they are computed from, fit in an `i32`.
pub open spec fn rect_fits(r: ScreenRect) -> bool {
    &&& i32::MIN <= r.right - r.left && r.right - r.left + 1 <= i32::MAX
    &&& i32::MIN <= r.bottom - r.top && r.bottom - r.top + 1 <= i32::MAX
}

/// The rectangle `r` by position and size, a negative size shown as zero.
pub open spec fn dto_of(r: ScreenRect) -> RectDto {
    RectDto {
        x: r.left,
        y: r.top,
        width: if r.right - r.left + 1 > 0 {
            (r.right - r.left + 1) as i32
        } else {
            0
        },
        height: if r.bottom - r.top + 1 > 0 {
            (r.bottom - r.top + 1) as i32
        } else {
            0
        },
    }
}

/// The rectangle `rect` by position and size.
pub fn rect_to_dto(rect: ScreenRect) -> (res: RectDto)
    requires
        rect_fits(rect),
    ensures
        res == dto_of(rect),
{
    let width = rect.right - rect.left + 1;
    let height = rect.bottom - rect.top + 1;
    RectDto {
        x: rect.left,
        y: rect.top,
        width: if width > 0 {
            width
        } else {
            0
        },
        height: if height > 0 {
            height
        } else {
            0
        },
    }
}

/// `{X=…,Y=…,Width=…,Height=…}` for the rectangle `d`.
pub open spec fn rect_text(d: RectDto) -> Seq<char> {
    "{X="@ + signed_decimal(d.x as int) + ",Y="@ + signed_decimal(d.y as int) + ",Width="@
        + signed_decimal(d.width as int) + ",Height="@ + signed_decimal(d.height as int) + "}"@
}

/// The rectangle `rect` as the details pane shows it.
pub fn format_rect(rect: ScreenRect) -> (res: String)
    requires
        rect_fits(rect),
    ensures
        res@ == rect_text(dto_of(rect)),
{
    let dto = rect_to_dto(rect);
    let mut s = String::from_str("{X=");
    push_str(&mut s, i64_to_decimal(dto.x as i64).as_str());
    push_str(&mut s, ",Y=");
    push_str(&mut s, i64_to_decimal(dto.y as i64).as_str());
    push_str(&mut s, ",Width=");
    push_str(&mut s, i64_to_decimal(dto.width as i64).as_str());
    push_str(&mut s, ",Height=");
    push_str(&mut s, i64_to_decimal(dto.height as i64).as_str());
    push_str(&mut s, "}");
    s
}

// ---------------------------------------------------------------------------
// Property texts
// ---------------------------------------------------------------------------

/// `Yes` or `No`.
pub open spec fn yes_no_text(value: bool) -> Seq<char> {
    if value {
        "Yes"@
    } else {
        "No"@
    }
}

/// `true` or `false`, as `bool::to_string` renders them.
pub open spec fn bool_text(value: bool) -> Seq<char> {
    if value {
        "true"@
    } else {
        "false"@
    }
}

/// What the details pane shows for a property: its text, or `Not Supported`
/// where the property could not be read or its text is blank.
pub open spec fn prop_text(value: Option<Seq<char>>) -> Seq<char> {
    match value {
        Some(s) => if is_blank_seq(s) {
            "Not Supported"@
        } else {
            s
        },
        None => "Not Supported"@,
    }
}

/// What the details pane shows for a boolean property.
pub open spec fn bool_property_text(value: Option<bool>) -> Seq<char> {
    match value {
        Some(b) => yes_no_text(b),
        None => "Not Supported"@,
    }
}

/// The text of an optional string.
pub open spec fn opt_view(v: Option<String>) -> Option<Seq<char>> {
    match v {
        Some(s) => Some(s@),
        None => None,
    }
}

/// A detail row without an action.
pub fn row(name: &str, value: String) -> (res: DetailRow)
    ensures
        res.name@ == name@,
        res.value == value,
        res.action is None,
{
    DetailRow { name: String::from_str(name), value, action: None }
}

pub fn yes_no(value: bool) -> (res: String)
    ensures
        res@ == yes_no_text(value),
{
    if value {
        String::from_str("Yes")
    } else {
        String::from_str("No")
    }
}

/// `bool::to_string`.
pub fn bool_to_text(value: bool) -> (res: String)
    ensures
        res@ == bool_text(value),
{
    if value {
        String::from_str("true")
    } else {
        String::from_str("false")
    }
}

/// What the details pane shows for a boolean property whose query gave
/// `value` (`None` where it failed).
pub fn bool_property(value: Option<bool>) -> (res: String)
    ensures
        res@ == bool_property_text(value),
{
    match value {
        Some(b) => yes_no(b),
        None => String::from_str("Not Supported"),
    }
}

/// What the details pane shows for a property whose query rendered `value`
/// (`None` where it failed).
pub fn prop_string(value: Option<String>) -> (res: String)
    ensures
        res@ == prop_text(opt_view(value)),
{
    match value {
        Some(s) => {
            if is_blank(s.as_str()) {
                String::from_str("Not Supported")
            } else {
                s
            }
        },
        None => String::from_str("Not Supported"),
    }
}

/// The decimal text of an optional number.
pub fn opt_u32_text(value: Option<u32>) -> (res: Option<String>)
    ensures
        opt_view(res) == match value {
            Some(n) => Some(decimal(n as nat)),
            None => None::<Seq<char>>,
        },
{
    match value {
        Some(n) => Some(crate::text::u128_to_decimal(n as u128)),
        None => None,
    }
}

/// The text of an optional boolean.
pub fn opt_bool_text(value: Option<bool>) -> (res: Option<String>)
    ensures
        opt_view(res) == match value {
            Some(b) => Some(bool_text(b)),
            None => None::<Seq<char>>,
        },
{
    match value {
        Some(b) => Some(bool_to_text(b)),
        None => None,
    }
}

/// The id of the shortcut to the node `node_id` of `process`.
pub fn shortcut_id(process: &ProcessWindow, node_id: &str) -> (res: String)
    ensures
        res@ == shortcut_id_spec(process.hwnd, node_id@),
{
    shortcut_id_of(process.hwnd, node_id)
}

// ---------------------------------------------------------------------------
// Error texts
// ---------------------------------------------------------------------------

/// The message of an error.
pub fn err<E: core::fmt::Display>(e: E) -> (res: String)
    ensures
        vstd::string::to_string_from_display_ensures::<E>(&e, res),
{
    e.to_string()
}

/// `format!("{e:?}")`: the `Debug` rendering of `e`. Nothing is claimed of
/// the text: `Debug` output of an arbitrary type is not specified, and a
/// name for it would need a generic parameter.
#[verifier::external_body]
fn debug_text<E: core::fmt::Debug>(e: &E) -> String {
    format!("{e:?}")
}

/// The debug rendering of a system error.
pub fn win_err<E: core::fmt::Debug>(e: E) -> String {
    debug_text(&e)
}

/// The message for a lock that a panicking thread left behind.
pub fn lock_err<E: core::fmt::Display>(e: E) -> (res: String)
    ensures
        exists|m: String|
            vstd::string::to_string_from_display_ensures::<E>(&e, m) && res@ == "锁状态异常: "@ + m@,
{
    let m = e.to_string();
    let mut s = String::from_str("锁状态异常: ");
    push_str(&mut s, m.as_str());
    s
}

} // verus!
