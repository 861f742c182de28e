use vstd::prelude::*;

verus! {

/// How a window is to be opened: its title, the size of its surface in
/// pixels, and whether it shows at once.
#[derive(Debug, Clone, Copy)]
pub struct WindowOptions {
    pub title: &'static str,
    pub width: i32,
    pub height: i32,
    pub is_visible: bool,
}

impl WindowOptions {
    pub fn new(title: &'static str, width: i32, height: i32, is_visible: bool) -> (options: WindowOptions)
        ensures
            options.title@ == title@,
            options.width == width,
            options.height == height,
            options.is_visible == is_visible,
    {
        WindowOptions { title, width, height, is_visible }
    }

    /// The default window under another title.
    pub fn titled(title: &'static str) -> (options: WindowOptions)
        ensures
            options.title@ == title@,
            options.width == 1200,
            options.height == 900,
            options.is_visible,
    {
        WindowOptions { title, ..WindowOptions::default() }
    }

    /// A visible window of the given title and size.
    pub fn sized(title: &'static str, width: i32, height: i32) -> (options: WindowOptions)
        ensures
            options.title@ == title@,
            options.width == width,
            options.height == height,
            options.is_visible,
    {
        WindowOptions { title, width, height, ..WindowOptions::default() }
    }
}

impl Default for WindowOptions {
    /// A visible window of 1200 by 900 pixels, titled "OpenGL window".
    fn default() -> (options: WindowOptions)
        ensures
            options.title@ == "OpenGL window"@,
            options.width == 1200,
            options.height == 900,
            options.is_visible,
    {
        WindowOptions { title: "OpenGL window", width: 1200, height: 900, is_visible: true }
    }
}

} // verus!
