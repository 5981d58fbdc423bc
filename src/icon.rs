use vstd::prelude::*;
use vstd::string::StringExecFns;

verus! {

/// Opening of the markup that shows a symbol of the Material Symbols font.
pub const SYMBOL_OPEN: &'static str = "<span font_desc='Material Symbols Outlined @opsz=20,FILL=1,GRAD=-25' rise='-3pt'>";

/// Closing of the markup that shows a symbol, followed by a space.
pub const SYMBOL_CLOSE: &'static str = "</span> ";

/// A freedesktop device icon class, such as `audio-headset`. Any text is accepted.
#[derive(Debug)]
pub struct Icon(pub String);

impl Icon {
    pub open spec fn view(&self) -> Seq<char> {
        self.0@
    }

    /// Wraps an icon class; this never fails.
    pub fn new(class: &str) -> (r: Icon)
        ensures
            r@ == class@,
    {
        Icon(String::from_str(class))
    }
}

impl std::str::FromStr for Icon {
    type Err = ();

    /// Any text is an icon class, so this never fails.
    fn from_str(s: &str) -> (r: Result<Icon, ()>)
        ensures
            r matches Ok(i) && i@ == s@,
    {
        Ok(Icon::new(s))
    }
}

/// The plain glyph of an icon class, when the class is a known one.
pub open spec fn emoji_glyph(class: Seq<char>) -> Option<Seq<char>> {
    if class == "audio-headset"@ {
        Some("🎧 "@)
    } else if class == "phone"@ {
        Some("📱 "@)
    } else if class == "pda"@ {
        Some("📱 "@)
    } else if class == "input-keyboard"@ {
        Some("⌨️ "@)
    } else if class == "input-mouse"@ {
        Some("🖱️ "@)
    } else if class == "input-gaming"@ {
        Some("🎮 "@)
    } else if class == "input-tablet"@ {
        Some("🖍️  "@)
    } else if class == "multimedia-player"@ {
        Some("📻 "@)
    } else if class == "printer"@ {
        Some("🖨️  "@)
    } else if class == "scanner"@ {
        Some("🖨️  "@)
    } else {
        None
    }
}

/// The symbol name, in the Material Symbols font, of a known icon class.
pub open spec fn symbol_name(class: Seq<char>) -> Option<Seq<char>> {
    if class == "audio-headset"@ {
        Some("headphones"@)
    } else if class == "phone"@ {
        Some("smartphone"@)
    } else if class == "pda"@ {
        Some("smartphone"@)
    } else if class == "input-keyboard"@ {
        Some("keyboard"@)
    } else if class == "input-mouse"@ {
        Some("mouse"@)
    } else if class == "input-gaming"@ {
        Some("sports_esports"@)
    } else if class == "input-tablet"@ {
        Some("tablet_android"@)
    } else if class == "multimedia-player"@ {
        Some("media_bluetooth_on"@)
    } else if class == "printer"@ {
        Some("print"@)
    } else if class == "scanner"@ {
        Some("scanner"@)
    } else {
        None
    }
}

/// The markup that shows the symbol `name`.
pub open spec fn symbol_markup(name: Seq<char>) -> Seq<char> {
    SYMBOL_OPEN@ + name + SYMBOL_CLOSE@
}

/// The markup glyph of an icon class, when the class is a known one.
pub open spec fn markup_glyph(class: Seq<char>) -> Option<Seq<char>> {
    match symbol_name(class) {
        Some(name) => Some(symbol_markup(name)),
        None => None,
    }
}

/// Every glyph of the table has at least one character.
pub proof fn glyphs_are_nonempty(class: Seq<char>)
    ensures
        emoji_glyph(class) matches Some(g) ==> g.len() > 0,
        markup_glyph(class) matches Some(g) ==> g.len() > 0,
{
    reveal_strlit("</span> ");
    if let Some(g) = emoji_glyph(class) {
        reveal_strlit("⌨️ ");
        reveal_strlit("🎧 ");
        reveal_strlit("🎮 ");
        reveal_strlit("📱 ");
        reveal_strlit("📻 ");
        reveal_strlit("🖍️  ");
        reveal_strlit("🖨️  ");
        reveal_strlit("🖱️ ");
    }
}

fn is_class(s: &String, class: &str) -> (r: bool)
    ensures
        r == (s@ == class@),
{
    *s == String::from_str(class)
}

impl Icon {
    /// The plain glyph of this icon class; `None` for a class outside the table.
    pub fn emoji(&self) -> (r: Option<&'static str>)
        ensures
            r matches Some(g) ==> emoji_glyph(self@) == Some(g@),
            r is None ==> emoji_glyph(self@) is None,
    {
        if is_class(&self.0, "audio-headset") {
            Some("🎧 ")
        } else if is_class(&self.0, "phone") {
            Some("📱 ")
        } else if is_class(&self.0, "pda") {
            Some("📱 ")
        } else if is_class(&self.0, "input-keyboard") {
            Some("⌨️ ")
        } else if is_class(&self.0, "input-mouse") {
            Some("🖱️ ")
        } else if is_class(&self.0, "input-gaming") {
            Some("🎮 ")
        } else if is_class(&self.0, "input-tablet") {
            Some("🖍️  ")
        } else if is_class(&self.0, "multimedia-player") {
            Some("📻 ")
        } else if is_class(&self.0, "printer") {
            Some("🖨️  ")
        } else if is_class(&self.0, "scanner") {
            Some("🖨️  ")
        } else {
            None
        }
    }

    /// The markup glyph of this icon class; `None` for a class outside the table.
    pub fn material_symbols(&self) -> (r: Option<String>)
        ensures
            r matches Some(g) ==> markup_glyph(self@) == Some(g@),
            r is None ==> markup_glyph(self@) is None,
    {
        let name: Option<&str> = if is_class(&self.0, "audio-headset") {
            Some("headphones")
        } else if is_class(&self.0, "phone") {
            Some("smartphone")
        } else if is_class(&self.0, "pda") {
            Some("smartphone")
        } else if is_class(&self.0, "input-keyboard") {
            Some("keyboard")
        } else if is_class(&self.0, "input-mouse") {
            Some("mouse")
        } else if is_class(&self.0, "input-gaming") {
            Some("sports_esports")
        } else if is_class(&self.0, "input-tablet") {
            Some("tablet_android")
        } else if is_class(&self.0, "multimedia-player") {
            Some("media_bluetooth_on")
        } else if is_class(&self.0, "printer") {
            Some("print")
        } else if is_class(&self.0, "scanner") {
            Some("scanner")
        } else {
            None
        };
        match name {
            Some(n) => {
                let mut g = String::from_str(SYMBOL_OPEN);
                g.append(n);
                g.append(SYMBOL_CLOSE);
                Some(g)
            },
            None => None,
        }
    }
}

} // verus!
