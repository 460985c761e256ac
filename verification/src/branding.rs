//! Branding: logos, banners, progress characters and colours.
use vstd::prelude::*;
use crate::text::concat3;

verus! {

/// Visual elements of Omni.
pub struct OmniBranding;

/// Characters that draw progress bars.
pub struct ProgressChars {
    pub installing: &'static str,
    pub searching: &'static str,
    pub downloading: &'static str,
    pub complete: &'static str,
}

/// Terminal colour codes.
pub struct Theme {
    pub background: &'static str,
    pub foreground: &'static str,
    pub accent: &'static str,
    pub success: &'static str,
    pub error: &'static str,
    pub warning: &'static str,
    pub reset: &'static str,
}

/// The main logo.
pub open spec fn logo_text() -> Seq<char> {
    r#"
██╗  ██╗ ███╗   ███╗ ███╗   ██╗ ██╗
██║  ██║ ████╗ ████║ ████╗  ██║ ██║
██║  ██║ ██╔████╔██║ ██╔██╗ ██║ ██║
██║  ██║ ██║╚██╔╝██║ ██║╚██╗██║ ██║
╚██████╔╝ ██║ ╚═╝ ██║ ██║ ╚████║ ██║
 ╚═════╝  ╚═╝     ╚═╝ ╚═╝  ╚═══╝ ╚═╝
                                    
    Universal Package Manager    
"#@
}

/// The welcome banner's picture, before colouring.
pub open spec fn banner_text() -> Seq<char> {
    r#"
╔══════════════════════════════════════════════════════════════════════════════╗
║                                                                              ║
║  ██████╗ ███╗   ███╗███╗   ██╗██╗    Universal Package Manager             ║
║ ██╔═══██╗████╗ ████║████╗  ██║██║                                          ║
║ ██║   ██║██╔████╔██║██╔██╗ ██║██║    One command for all platforms         ║
║ ██║   ██║██║╚██╔╝██║██║╚██╗██║██║                                          ║
║ ╚██████╔╝██║ ╚═╝ ██║██║ ╚████║██║    Linux • macOS • Windows              ║
║  ╚═════╝ ╚═╝     ╚═╝╚═╝  ╚═══╝╚═╝                                          ║
║                                                                              ║
╚══════════════════════════════════════════════════════════════════════════════╝
"#@
}

impl OmniBranding {
    /// Main OMNI ASCII art logo.
    pub fn logo() -> (r: &'static str)
        ensures
            r@ == logo_text(),
    {
        r#"
██╗  ██╗ ███╗   ███╗ ███╗   ██╗ ██╗
██║  ██║ ████╗ ████║ ████╗  ██║ ██║
██║  ██║ ██╔████╔██║ ██╔██╗ ██║ ██║
██║  ██║ ██║╚██╔╝██║ ██║╚██╗██║ ██║
╚██████╔╝ ██║ ╚═╝ ██║ ██║ ╚████║ ██║
 ╚═════╝  ╚═╝     ╚═╝ ╚═╝  ╚═══╝ ╚═╝
                                    
    Universal Package Manager    
"#
    }

    /// Compact ASCII logo for headers.
    pub fn compact_logo() -> (r: &'static str)
        ensures
            r@ == r#"
 ██████╗ ███╗   ███╗███╗   ██╗██╗
██╔═══██╗████╗ ████║████╗  ██║██║
██║   ██║██╔████╔██║██╔██╗ ██║██║
██║   ██║██║╚██╔╝██║██║╚██╗██║██║
╚██████╔╝██║ ╚═╝ ██║██║ ╚████║██║
 ╚═════╝ ╚═╝     ╚═╝╚═╝  ╚═══╝╚═╝
"#@,
    {
        r#"
 ██████╗ ███╗   ███╗███╗   ██╗██╗
██╔═══██╗████╗ ████║████╗  ██║██║
██║   ██║██╔████╔██║██╔██╗ ██║██║
██║   ██║██║╚██╔╝██║██║╚██╗██║██║
╚██████╔╝██║ ╚═╝ ██║██║ ╚████║██║
 ╚═════╝ ╚═╝     ╚═╝╚═╝  ╚═══╝╚═╝
"#
    }

    /// Small ASCII for inline use.
    pub fn mini_logo() -> (r: &'static str)
        ensures
            r@ == r#"
 ▄▄▄▄▄▄▄ ▄▄▄   ▄▄▄ ▄▄    ▄ ▄▄▄ 
█       █   █▄█   █  █  █ █   █
█   ▄   █       █   █   █▄█   █
█  █ █  █       █   █    ▄    █
█  █▄█  █ ██▄██ █   █   █ █   █
█       █       █   █   █ █   █
█▄▄▄▄▄▄▄█▄▄▄▄▄▄▄█▄▄▄█▄▄▄█ █▄▄▄█
"#@,
    {
        r#"
 ▄▄▄▄▄▄▄ ▄▄▄   ▄▄▄ ▄▄    ▄ ▄▄▄ 
█       █   █▄█   █  █  █ █   █
█   ▄   █       █   █   █▄█   █
█  █ █  █       █   █    ▄    █
█  █▄█  █ ██▄██ █   █   █ █   █
█       █       █   █   █ █   █
█▄▄▄▄▄▄▄█▄▄▄▄▄▄▄█▄▄▄█▄▄▄█ █▄▄▄█
"#
    }

    /// Package box ASCII art.
    pub fn package_icon() -> (r: &'static str)
        ensures
            r@ == r#"
    ┌─────────────┐
   ╱│             │╲
  ╱ │    OMNI     │ ╲
 ╱  │   PACKAGE   │  ╲
╱   └─────────────┘   ╲
╲                     ╱
 ╲                   ╱
  ╲                 ╱
   ╲_______________╱
"#@,
    {
        r#"
    ┌─────────────┐
   ╱│             │╲
  ╱ │    OMNI     │ ╲
 ╱  │   PACKAGE   │  ╲
╱   └─────────────┘   ╲
╲                     ╱
 ╲                   ╱
  ╲                 ╱
   ╲_______________╱
"#
    }

    /// Black background banner with white text.
    pub fn welcome_banner() -> (r: String)
        ensures
            r@ == "\x1b[40m\x1b[37m"@ + banner_text() + "\x1b[0m"@,
    {
        concat3("\x1b[40m\x1b[37m", r#"
╔══════════════════════════════════════════════════════════════════════════════╗
║                                                                              ║
║  ██████╗ ███╗   ███╗███╗   ██╗██╗    Universal Package Manager             ║
║ ██╔═══██╗████╗ ████║████╗  ██║██║                                          ║
║ ██║   ██║██╔████╔██║██╔██╗ ██║██║    One command for all platforms         ║
║ ██║   ██║██║╚██╔╝██║██║╚██╗██║██║                                          ║
║ ╚██████╔╝██║ ╚═╝ ██║██║ ╚████║██║    Linux • macOS • Windows              ║
║  ╚═════╝ ╚═╝     ╚═╝╚═╝  ╚═══╝╚═╝                                          ║
║                                                                              ║
╚══════════════════════════════════════════════════════════════════════════════╝
"#, "\x1b[0m")
    }

    /// Progress indicators for package operations.
    pub fn progress_chars() -> (r: ProgressChars)
        ensures
            r.installing@ == "▓"@,
            r.searching@ == "▒"@,
            r.downloading@ == "░"@,
            r.complete@ == "█"@,
    {
        ProgressChars { installing: "▓", searching: "▒", downloading: "░", complete: "█" }
    }

    /// Colour theme constants.
    pub fn theme() -> (r: Theme)
        ensures
            r.background@ == "\x1b[40m"@,
            r.foreground@ == "\x1b[37m"@,
            r.accent@ == "\x1b[36m"@,
            r.success@ == "\x1b[32m"@,
            r.error@ == "\x1b[31m"@,
            r.warning@ == "\x1b[33m"@,
            r.reset@ == "\x1b[0m"@,
    {
        Theme {
            background: "\x1b[40m",
            foreground: "\x1b[37m",
            accent: "\x1b[36m",
            success: "\x1b[32m",
            error: "\x1b[31m",
            warning: "\x1b[33m",
            reset: "\x1b[0m",
        }
    }

    /// The text that displays the branding: the main logo.
    pub fn display_text(&self) -> (r: &'static str)
        ensures
            r@ == logo_text(),
    {
        Self::logo()
    }
}

} // verus!
