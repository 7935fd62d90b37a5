use vstd::prelude::*;

verus! {

/// The language of the help text.
#[derive(Debug, Copy, Clone, PartialEq, Eq, Structural)]
pub enum Lang {
    En,
    Sr,
}

/// The help window: whether it is open, and in which language it speaks.
pub struct Help {
    show: bool,
    lang: Lang,
}

impl Help {
    pub closed spec fn is_shown(&self) -> bool {
        self.show
    }

    pub closed spec fn language(&self) -> Lang {
        self.lang
    }

    /// An open help window in English.
    pub fn new() -> (h: Help)
        ensures
            h.is_shown(),
            h.language() == Lang::En,
    {
        Help { show: true, lang: Lang::En }
    }

    /// The language buttons.
    pub fn select_lang(&mut self, lang: Lang)
        ensures
            final(self).language() == lang,
            final(self).is_shown() == old(self).is_shown(),
    {
        self.lang = lang;
    }

    pub fn lang(&self) -> (l: Lang)
        ensures
            l == self.language(),
    {
        self.lang
    }

    pub fn get_visibility(&self) -> (b: bool)
        ensures
            b == self.is_shown(),
    {
        self.show
    }

    /// Closes the window.
    pub fn close(&mut self)
        ensures
            !final(self).is_shown(),
            final(self).language() == old(self).language(),
    {
        self.show = false;
    }
}

} // verus!
