use vstd::prelude::*;

verus! {

// == Theme ===============================================
/// The sizes, in pixels, that the participants are drawn and placed with.
#[derive(Debug, Copy, Clone, PartialEq, Eq)]
pub struct Theme {
    pub title_font_px: usize,
    pub partic_font_px: usize,
    pub message_font_px: usize,
    pub document_border_width: usize,
    pub partic_padding: usize,
    pub partic_h_gap: usize,
}

impl Default for Theme {
    fn default() -> (theme: Theme)
        ensures
            theme == (Theme {
                title_font_px: 30,
                partic_font_px: 30,
                message_font_px: 16,
                document_border_width: 10,
                partic_padding: 5,
                partic_h_gap: 20,
            }),
    {
        Theme {
            title_font_px: 30,
            partic_font_px: 30,
            message_font_px: 16,
            document_border_width: 10,
            partic_padding: 5,
            partic_h_gap: 20,
        }
    }
}

} // verus!
