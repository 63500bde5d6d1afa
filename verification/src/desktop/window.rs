//! The style bits of wallpaper windows.
use vstd::prelude::*;
use vstd::string::*;
use crate::error::{ErrorKind, MirrorStarError};
use crate::text;

verus! {

/// The bits of a window's frame: title bar, sizing border, system menu and the two
/// buttons to maximize and minimize.
pub const FRAME_BITS: u32 = 0x00cf_0000;

/// The extended bits of a window's frame and of its place in the task bar: dialog
/// frame, composited painting, raised, sunken and static edge, tool window and
/// application window.
pub const FRAME_EX_BITS: u32 = 0x0206_0381;

/// The extended bit of a window that has a button in the task bar.
pub const APP_WINDOW_BIT: u64 = 0x0004_0000;

/// The extended bit of a tool window, which has no button in the task bar.
pub const TOOL_WINDOW_BIT: u64 = 0x0000_0080;

/// The extended bit of a window that is not activated by the mouse.
pub const NO_ACTIVATE_BIT: u64 = 0x0800_0000;

/// The extended bit of a layered window.
pub const LAYERED_BIT: u64 = 0x0008_0000;

/// The extended bit of a window that the mouse reaches through.
pub const TRANSPARENT_BIT: u64 = 0x0000_0020;

/// The style of a window once its frame is removed.
pub fn make_borderless(style: u32) -> (r: u32)
    ensures
        r == style & !FRAME_BITS,
{
    style & !FRAME_BITS
}

/// The extended style of a window once its frame is removed.
pub fn make_borderless_ex(ex_style: u32) -> (r: u32)
    ensures
        r == ex_style & !FRAME_EX_BITS,
{
    ex_style & !FRAME_EX_BITS
}

/// The extended style of a window once it is taken out of the task bar.
pub fn remove_from_taskbar(ex_style: u64) -> (r: u64)
    ensures
        r == (ex_style & !APP_WINDOW_BIT) | TOOL_WINDOW_BIT | NO_ACTIVATE_BIT,
{
    (ex_style & !APP_WINDOW_BIT) | TOOL_WINDOW_BIT | NO_ACTIVATE_BIT
}

/// The extended style of a window that lets the mouse through, or does so no more. The
/// window stays layered.
pub fn set_mouse_passthrough(ex_style: u64, enabled: bool) -> (r: u64)
    ensures
        r == if enabled {
            ex_style | (LAYERED_BIT | TRANSPARENT_BIT)
        } else {
            ex_style & !TRANSPARENT_BIT
        },
{
    if enabled {
        ex_style | (LAYERED_BIT | TRANSPARENT_BIT)
    } else {
        ex_style & !TRANSPARENT_BIT
    }
}

/// The result of changing a style, when the system's last error was cleared before and
/// is `last_error` now: any error means that `context` failed.
pub fn set_window_long_with_error(last_error: u32, context: &str) -> (r: Result<(), MirrorStarError>)
    ensures
        if last_error == 0 {
            r is Ok
        } else {
            r matches Err(e) && e@ == (
                ErrorKind::DesktopIntegration,
                "SetWindowLongPtrW 失败："@ + context@ + "，GetLastError: 0x"@ + text::hex_fixed(
                    last_error as nat,
                    8,
                    true,
                ),
            )
        },
{
    if last_error != 0 {
        let mut m = String::from_str("SetWindowLongPtrW 失败：");
        m.append(context);
        m.append("，GetLastError: 0x");
        m.append(text::hex_text(last_error as u64, 8, true).as_str());
        return Err(MirrorStarError::DesktopIntegration(m));
    }
    Ok(())
}

/// Which of a window's two styles.
#[derive(Clone, Copy, Debug, PartialEq, Eq, Structural)]
pub enum StyleSlot {
    /// The style.
    Style,
    /// The extended style.
    ExStyle,
}

/// A change of one of a window's styles.
#[derive(Clone, Copy, Debug, PartialEq, Eq, Structural)]
pub enum StyleChange {
    /// The frame is removed from the style.
    Frame,
    /// The frame is removed from the extended style.
    FrameEx,
    /// The window is taken out of the task bar.
    Taskbar,
    /// The mouse is let through the window, or is so no more.
    Passthrough {
        /// The mouse is let through.
        enabled: bool,
    },
}

/// What to do after a change of a style.
#[derive(Debug)]
pub enum StyleNext {
    /// Make this change.
    Change(StyleChange),
    /// Have the system draw the frame anew, as far as possible. That is all.
    Refresh,
    /// Done, with this result.
    Finished(Result<(), MirrorStarError>),
}

/// The lowest 32 bits.
pub open spec fn low_bits(bits: u64) -> u32 {
    (bits % 0x1_0000_0000) as u32
}

impl StyleChange {
    /// The style that is changed.
    pub open spec fn spec_slot(self) -> StyleSlot {
        if self == StyleChange::Frame {
            StyleSlot::Style
        } else {
            StyleSlot::ExStyle
        }
    }

    /// What the style is after the change.
    pub open spec fn changed(self, bits: u64) -> u64 {
        match self {
            StyleChange::Frame => (low_bits(bits) & !FRAME_BITS) as u64,
            StyleChange::FrameEx => (low_bits(bits) & !FRAME_EX_BITS) as u64,
            StyleChange::Taskbar => (bits & !APP_WINDOW_BIT) | TOOL_WINDOW_BIT | NO_ACTIVATE_BIT,
            StyleChange::Passthrough { enabled } => if enabled {
                bits | (LAYERED_BIT | TRANSPARENT_BIT)
            } else {
                bits & !TRANSPARENT_BIT
            },
        }
    }

    /// What is said of a change that failed.
    pub open spec fn spec_context(self) -> Seq<char> {
        match self {
            StyleChange::Frame => "无法设置 GWL_STYLE 窗口样式"@,
            StyleChange::FrameEx => "无法设置 GWL_EXSTYLE 扩展样式"@,
            StyleChange::Taskbar => "无法从任务栏移除窗口（GWL_EXSTYLE）"@,
            StyleChange::Passthrough { .. } => "无法设置鼠标穿透模式（GWL_EXSTYLE）"@,
        }
    }

    /// The style that is changed.
    pub fn slot(self) -> (r: StyleSlot)
        ensures
            r == self.spec_slot(),
    {
        match self {
            StyleChange::Frame => StyleSlot::Style,
            StyleChange::FrameEx | StyleChange::Taskbar | StyleChange::Passthrough { .. } => {
                StyleSlot::ExStyle
            },
        }
    }

    /// What a style with these bits is after the change.
    pub fn apply(self, bits: u64) -> (r: u64)
        ensures
            r == self.changed(bits),
    {
        match self {
            StyleChange::Frame => make_borderless((bits % 0x1_0000_0000) as u32) as u64,
            StyleChange::FrameEx => make_borderless_ex((bits % 0x1_0000_0000) as u32) as u64,
            StyleChange::Taskbar => remove_from_taskbar(bits),
            StyleChange::Passthrough { enabled } => set_mouse_passthrough(bits, enabled),
        }
    }

    /// What is said of a change that failed.
    pub fn context(self) -> (r: &'static str)
        ensures
            r@ == self.spec_context(),
    {
        match self {
            StyleChange::Frame => "无法设置 GWL_STYLE 窗口样式",
            StyleChange::FrameEx => "无法设置 GWL_EXSTYLE 扩展样式",
            StyleChange::Taskbar => "无法从任务栏移除窗口（GWL_EXSTYLE）",
            StyleChange::Passthrough { .. } => "无法设置鼠标穿透模式（GWL_EXSTYLE）",
        }
    }

    /// What to do after the change, when the system's last error was cleared before and is
    /// `last_error` now. The frame is removed from the style first, then from the extended
    /// style, and a failure ends that. The other changes are made as far as possible: the
    /// wallpaper works without.
    pub fn on_set(self, last_error: u32) -> (r: StyleNext)
        ensures
            match self {
                StyleChange::Taskbar | StyleChange::Passthrough { .. } => r is Refresh,
                _ => if last_error != 0 {
                    r matches StyleNext::Finished(Err(e)) && e@ == (
                        ErrorKind::DesktopIntegration,
                        "SetWindowLongPtrW 失败："@ + self.spec_context() + "，GetLastError: 0x"@
                            + text::hex_fixed(last_error as nat, 8, true),
                    )
                } else if self == StyleChange::Frame {
                    r matches StyleNext::Change(c) && c == StyleChange::FrameEx
                } else {
                    r matches StyleNext::Finished(Ok(_))
                },
            },
    {
        match self {
            StyleChange::Taskbar | StyleChange::Passthrough { .. } => StyleNext::Refresh,
            StyleChange::Frame => match set_window_long_with_error(last_error, self.context()) {
                Ok(_) => StyleNext::Change(StyleChange::FrameEx),
                Err(e) => StyleNext::Finished(Err(e)),
            },
            StyleChange::FrameEx => StyleNext::Finished(
                set_window_long_with_error(last_error, self.context()),
            ),
        }
    }
}

/// Removing the frame clears the frame's bits, keeps all others, and does nothing to a
/// window that has no frame. A layered window stays layered.
pub proof fn law_borderless(style: u32, ex_style: u32)
    ensures
        (style & !FRAME_BITS) & FRAME_BITS == 0,
        (style & !FRAME_BITS) | (style & FRAME_BITS) == style,
        (ex_style & !FRAME_EX_BITS) & FRAME_EX_BITS == 0,
        (ex_style & !FRAME_EX_BITS) | (ex_style & FRAME_EX_BITS) == ex_style,
        (ex_style & !FRAME_EX_BITS) & 0x0008_0000 == ex_style & 0x0008_0000,
{
    assert((style & !FRAME_BITS) & FRAME_BITS == 0) by (bit_vector);
    assert((style & !FRAME_BITS) | (style & FRAME_BITS) == style) by (bit_vector);
    assert((ex_style & !FRAME_EX_BITS) & FRAME_EX_BITS == 0) by (bit_vector);
    assert((ex_style & !FRAME_EX_BITS) | (ex_style & FRAME_EX_BITS) == ex_style) by (bit_vector);
    assert((ex_style & !FRAME_EX_BITS) & 0x0008_0000 == ex_style & 0x0008_0000) by (bit_vector);
}

/// Letting the mouse through can be undone: afterwards only the layered bit may differ.
pub proof fn law_passthrough(ex_style: u64)
    requires
        ex_style & TRANSPARENT_BIT == 0,
    ensures
        (ex_style | (LAYERED_BIT | TRANSPARENT_BIT)) & TRANSPARENT_BIT == TRANSPARENT_BIT,
        (ex_style | (LAYERED_BIT | TRANSPARENT_BIT)) & !TRANSPARENT_BIT == ex_style | LAYERED_BIT,
{
    assert((ex_style | (LAYERED_BIT | TRANSPARENT_BIT)) & TRANSPARENT_BIT == TRANSPARENT_BIT)
        by (bit_vector);
    assert(ex_style & TRANSPARENT_BIT == 0 ==> (ex_style | (LAYERED_BIT | TRANSPARENT_BIT))
        & !TRANSPARENT_BIT == ex_style | LAYERED_BIT) by (bit_vector);
}

/// What removing the frame leaves of a style: no title bar, sizing border, system menu,
/// maximize or minimize button. Every other of the 32 bits is as before, and there are no
/// more than 32.
pub proof fn law_frame_removed(bits: u64)
    ensures
        StyleChange::Frame.changed(bits) & 0x00cf_0000 == 0,
        StyleChange::Frame.changed(bits) & 0xff30_ffff == bits & 0xff30_ffff,
        StyleChange::Frame.changed(bits) <= 0xffff_ffff,
{
    let low = low_bits(bits);
    assert(low == bits % 0x1_0000_0000);
    let r = (low & !FRAME_BITS) as u64;
    assert(r & 0x00cf_0000 == 0 && r & 0xff30_ffff == bits & 0xff30_ffff && r <= 0xffff_ffff)
        by (bit_vector)
        requires
            low == bits % 0x1_0000_0000,
            r == (low & !0x00cf_0000u32) as u64,
    ;
}

/// What removing the frame leaves of an extended style: no edge, no dialog frame, no
/// composited painting, neither a tool window nor an application window. Every other of
/// the 32 bits is as before, the layered one among them, and there are no more than 32.
pub proof fn law_frame_ex_removed(bits: u64)
    ensures
        StyleChange::FrameEx.changed(bits) & 0x0206_0381 == 0,
        StyleChange::FrameEx.changed(bits) & 0xfdf9_fc7e == bits & 0xfdf9_fc7e,
        StyleChange::FrameEx.changed(bits) <= 0xffff_ffff,
{
    let low = low_bits(bits);
    assert(low == bits % 0x1_0000_0000);
    let r = (low & !FRAME_EX_BITS) as u64;
    assert(r & 0x0206_0381 == 0 && r & 0xfdf9_fc7e == bits & 0xfdf9_fc7e && r <= 0xffff_ffff)
        by (bit_vector)
        requires
            low == bits % 0x1_0000_0000,
            r == (low & !0x0206_0381u32) as u64,
    ;
}

/// A window that is taken out of the task bar is no application window, is a tool window
/// and is not activated by the mouse. Every other bit of its extended style is as before.
pub proof fn law_out_of_taskbar(bits: u64)
    ensures
        StyleChange::Taskbar.changed(bits) & 0x0004_0000 == 0,
        StyleChange::Taskbar.changed(bits) & 0x0000_0080 == 0x0000_0080,
        StyleChange::Taskbar.changed(bits) & 0x0800_0000 == 0x0800_0000,
        StyleChange::Taskbar.changed(bits) & !0x0804_0080u64 == bits & !0x0804_0080u64,
{
    let r = (bits & !APP_WINDOW_BIT) | TOOL_WINDOW_BIT | NO_ACTIVATE_BIT;
    assert(r & 0x0004_0000 == 0 && r & 0x0000_0080 == 0x0000_0080 && r & 0x0800_0000 == 0x0800_0000
        && r & !0x0804_0080u64 == bits & !0x0804_0080u64) by (bit_vector)
        requires
            r == (bits & !0x0004_0000u64) | 0x0000_0080u64 | 0x0800_0000u64,
    ;
}

/// A window that the mouse is let through has both the transparent and the layered bit,
/// whatever it had before; one that it is let through no more has no transparent bit. Every
/// other bit of the extended style is as before, so a layered window stays layered.
pub proof fn law_mouse_let_through(bits: u64)
    ensures
        ({
            let on = (StyleChange::Passthrough { enabled: true }).changed(bits);
            let off = (StyleChange::Passthrough { enabled: false }).changed(bits);
            &&& on & 0x0000_0020 == 0x0000_0020
            &&& on & 0x0008_0000 == 0x0008_0000
            &&& on & !0x0008_0020u64 == bits & !0x0008_0020u64
            &&& off & 0x0000_0020 == 0
            &&& off & !0x0000_0020u64 == bits & !0x0000_0020u64
        }),
{
    let on = bits | (LAYERED_BIT | TRANSPARENT_BIT);
    let off = bits & !TRANSPARENT_BIT;
    assert(on & 0x0000_0020 == 0x0000_0020 && on & 0x0008_0000 == 0x0008_0000 && on
        & !0x0008_0020u64 == bits & !0x0008_0020u64 && off & 0x0000_0020 == 0 && off
        & !0x0000_0020u64 == bits & !0x0000_0020u64) by (bit_vector)
        requires
            on == bits | (0x0008_0000u64 | 0x0000_0020u64),
            off == bits & !0x0000_0020u64,
    ;
}

/// Only the first change of the frame is made to the style; every other change is made to the
/// extended style.
pub proof fn law_styles_changed(change: StyleChange)
    ensures
        change.spec_slot() == StyleSlot::Style <==> change == StyleChange::Frame,
        change.spec_slot() == StyleSlot::ExStyle <==> change != StyleChange::Frame,
{
}

/// What is said of a change that failed names the style that it was about.
pub proof fn law_context_names_style(change: StyleChange)
    ensures
        change == StyleChange::Frame ==> text::contains_text(change.spec_context(), "GWL_STYLE"@),
        change != StyleChange::Frame ==> text::contains_text(change.spec_context(), "GWL_EXSTYLE"@),
{
    reveal_strlit("GWL_STYLE");
    reveal_strlit("GWL_EXSTYLE");
    reveal_strlit("无法设置 GWL_STYLE 窗口样式");
    reveal_strlit("无法设置 GWL_EXSTYLE 扩展样式");
    reveal_strlit("无法从任务栏移除窗口（GWL_EXSTYLE）");
    reveal_strlit("无法设置鼠标穿透模式（GWL_EXSTYLE）");
    let s = change.spec_context();
    match change {
        StyleChange::Frame => {
            assert(s.subrange(5, 14) =~= "GWL_STYLE"@);
            assert(text::occurs_at(s, "GWL_STYLE"@, 5));
        },
        StyleChange::FrameEx => {
            assert(s.subrange(5, 16) =~= "GWL_EXSTYLE"@);
            assert(text::occurs_at(s, "GWL_EXSTYLE"@, 5));
        },
        StyleChange::Taskbar => {
            assert(s.subrange(11, 22) =~= "GWL_EXSTYLE"@);
            assert(text::occurs_at(s, "GWL_EXSTYLE"@, 11));
        },
        StyleChange::Passthrough { .. } => {
            assert(s.subrange(11, 22) =~= "GWL_EXSTYLE"@);
            assert(text::occurs_at(s, "GWL_EXSTYLE"@, 11));
        },
    }
}

} // verus!
