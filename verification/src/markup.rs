//! The fragments of hypertext the decoration endpoints serve, built and
//! escaped as verified text, plus the checksum arithmetic behind the
//! lockfile ornaments.

use crate::digits::digit_of;
use crate::digits::digit_val;
use crate::digits::parse_u64_radix;
use crate::digits::spec_dec;
use crate::digits::spec_parse_u64;
use crate::digits::u64_to_dec;
use crate::text::str_eq;
use vstd::prelude::*;

verus! {

/// What one character becomes under markup escaping.
pub open spec fn escape_char(c: char) -> Seq<char> {
    if c == '&' {
        "&amp;"@
    } else if c == '<' {
        "&lt;"@
    } else if c == '>' {
        "&gt;"@
    } else if c == '"' {
        "&quot;"@
    } else {
        seq![c]
    }
}

/// Text with every markup-significant character replaced by its entity.
pub open spec fn escaped(s: Seq<char>) -> Seq<char>
    decreases s.len(),
{
    if s.len() == 0 {
        Seq::empty()
    } else {
        escaped(s.drop_last()) + escape_char(s.last())
    }
}

/// Escapes text for embedding in markup.
pub fn html_escape(s: &str) -> (r: String)
    ensures
        r@ == escaped(s@),
{
    let n = s.unicode_len();
    let mut out = String::new();
    let mut i: usize = 0;
    while i < n
        invariant
            i <= n,
            n == s@.len(),
            out@ == escaped(s@.subrange(0, i as int)),
        decreases n - i,
    {
        let c = s.get_char(i);
        if c == '&' {
            out.append("&amp;");
        } else if c == '<' {
            out.append("&lt;");
        } else if c == '>' {
            out.append("&gt;");
        } else if c == '"' {
            out.append("&quot;");
        } else {
            let piece = s.substring_char(i, i + 1);
            proof {
                assert(piece@ =~= seq![s@[i as int]]);
            }
            out.append(piece);
        }
        proof {
            assert(s@.subrange(0, i as int + 1).drop_last() =~= s@.subrange(0, i as int));
            assert(out@ =~= escaped(s@.subrange(0, i as int + 1)));
        }
        i = i + 1;
    }
    proof {
        assert(s@.subrange(0, n as int) =~= s@);
    }
    out
}

/// The fixed star fragment.
pub fn star_markup() -> (r: String)
    ensures
        r@ == "<div id=\"star\" class=\"lit\"></div>"@,
{
    String::from_str("<div id=\"star\" class=\"lit\"></div>")
}

/// The present fragment for a colour and the colour it cycles to next.
pub open spec fn present_view(colour: Seq<char>, next: Seq<char>) -> Seq<char> {
    "<div class=\"present "@ + colour + "\" hx-get=\"/23/present/"@ + next
        + "\" hx-swap=\"outerHTML\">"@ + "<div class=\"ribbon\"></div>"@
        + "<div class=\"ribbon\"></div>"@ + "<div class=\"ribbon\"></div>"@
        + "<div class=\"ribbon\"></div>"@ + "</div>"@
}

/// The present fragment: red cycles to blue, blue to purple, purple back
/// to red; any other colour is refused.
pub fn colour_present(colour: &str) -> (r: Option<String>)
    ensures
        colour@ == "red"@ ==> (r matches Some(s) && s@ == present_view("red"@, "blue"@)),
        colour@ == "blue"@ ==> (r matches Some(s) && s@ == present_view("blue"@, "purple"@)),
        colour@ == "purple"@ ==> (r matches Some(s) && s@ == present_view("purple"@, "red"@)),
        r is None <==> (colour@ != "red"@ && colour@ != "blue"@ && colour@ != "purple"@),
{
    proof {
        reveal_strlit("red");
        reveal_strlit("blue");
        reveal_strlit("purple");
    }
    let picked: (&'static str, &'static str) = if str_eq(colour, "red") {
        ("red", "blue")
    } else if str_eq(colour, "blue") {
        ("blue", "purple")
    } else if str_eq(colour, "purple") {
        ("purple", "red")
    } else {
        return None;
    };
    let mut out = String::new();
    out.append("<div class=\"present ");
    out.append(picked.0);
    out.append("\" hx-get=\"/23/present/");
    out.append(picked.1);
    out.append("\" hx-swap=\"outerHTML\">");
    out.append("<div class=\"ribbon\"></div>");
    out.append("<div class=\"ribbon\"></div>");
    out.append("<div class=\"ribbon\"></div>");
    out.append("<div class=\"ribbon\"></div>");
    out.append("</div>");
    proof {
        assert(out@ =~= present_view(picked.0@, picked.1@));
    }
    Some(out)
}

/// The ornament fragment for a class, the state it toggles to next, and
/// its escaped name.
pub open spec fn ornament_view(cls: Seq<char>, next: Seq<char>, name: Seq<char>) -> Seq<char> {
    "<div class=\""@ + cls + "\" id=\"ornament"@ + name + "\" hx-get=\"/23/ornament/"@ + next
        + "/"@ + name + "\" hx-trigger=\"load delay:2s once\" hx-swap=\"outerHTML\"></div>"@
}

/// The ornament fragment: `on` toggles to `off` and back; any other state
/// is refused. The ornament's name is embedded escaped.
pub fn ornament(state: &str, name: &str) -> (r: Option<String>)
    ensures
        state@ == "on"@ ==> (r matches Some(s) && s@ == ornament_view(
            "ornament on"@,
            "off"@,
            escaped(name@),
        )),
        state@ == "off"@ ==> (r matches Some(s) && s@ == ornament_view(
            "ornament"@,
            "on"@,
            escaped(name@),
        )),
        r is None <==> (state@ != "on"@ && state@ != "off"@),
{
    proof {
        reveal_strlit("on");
        reveal_strlit("off");
    }
    let picked: (&'static str, &'static str) = if str_eq(state, "on") {
        ("ornament on", "off")
    } else if str_eq(state, "off") {
        ("ornament", "on")
    } else {
        return None;
    };
    let escaped_name = html_escape(name);
    let mut out = String::new();
    out.append("<div class=\"");
    out.append(picked.0);
    out.append("\" id=\"ornament");
    out.append(escaped_name.as_str());
    out.append("\" hx-get=\"/23/ornament/");
    out.append(picked.1);
    out.append("/");
    out.append(escaped_name.as_str());
    out.append("\" hx-trigger=\"load delay:2s once\" hx-swap=\"outerHTML\"></div>");
    proof {
        assert(out@ =~= ornament_view(picked.0@, picked.1@, escaped(name@)));
    }
    Some(out)
}

/// One package of a lockfile: only its checksum matters here.
pub struct Package {
    pub checksum: String,
}

/// What a checksum yields: its first six characters as a colour, then two
/// hexadecimal character pairs as offsets. Refused when the checksum is
/// shorter than ten characters, the colour part is not all hexadecimal, or
/// either pair does not read as a byte.
pub open spec fn spec_cal(s: Seq<char>) -> Option<(Seq<char>, u8, u8)> {
    if s.len() < 10 {
        None
    } else if !(forall|i: int| 0 <= i < 6 ==> digit_val(s[i], 16) is Some) {
        None
    } else {
        match spec_parse_u64(s.subrange(6, 8), 16) {
            Some(t) => if t <= 255 {
                match spec_parse_u64(s.subrange(8, 10), 16) {
                    Some(l) => if l <= 255 {
                        Some(("#"@ + s.subrange(0, 6), t as u8, l as u8))
                    } else {
                        None
                    },
                    None => None,
                }
            } else {
                None
            },
            None => None,
        }
    }
}

impl Package {
    /// Reads the checksum into a colour and two pixel offsets.
    pub fn cal(self) -> (r: Option<(String, u8, u8)>)
        ensures
            match r {
                Some(p) => spec_cal(self.checksum@) == Some((p.0@, p.1, p.2)),
                None => spec_cal(self.checksum@) is None,
            },
    {
        let cs = self.checksum.as_str();
        let len = cs.unicode_len();
        if len < 10 {
            return None;
        }
        let mut i: usize = 0;
        while i < 6
            invariant
                i <= 6,
                cs@.len() >= 10,
                cs@ == self.checksum@,
                forall|j: int| 0 <= j < i as int ==> digit_val(cs@[j], 16) is Some,
            decreases 6 - i,
        {
            let c = cs.get_char(i);
            match digit_of(c, 16) {
                Some(_) => {},
                None => {
                    return None;
                },
            }
            i = i + 1;
        }
        let top = match parse_u64_radix(cs.substring_char(6, 8), 16) {
            Some(t) => {
                if t <= 255 {
                    t as u8
                } else {
                    return None;
                }
            },
            None => {
                return None;
            },
        };
        let left = match parse_u64_radix(cs.substring_char(8, 10), 16) {
            Some(l) => {
                if l <= 255 {
                    l as u8
                } else {
                    return None;
                }
            },
            None => {
                return None;
            },
        };
        let colour = cs.substring_char(0, 6);
        let mut out = String::new();
        out.append("#");
        out.append(colour);
        proof {
            assert(out@ =~= "#"@ + self.checksum@.subrange(0, 6));
        }
        Some((out, top, left))
    }
}

/// The positioned colour patch one lockfile package renders to. The colour
/// is embedded escaped; the one `cal` yields is a hash sign and six
/// hexadecimal characters, which escaping leaves unchanged.
pub open spec fn patch_view(colour: Seq<char>, top: u8, left: u8) -> Seq<char> {
    "<div style=\"background-color:"@ + colour + ";top:"@ + spec_dec(top as u64) + "px;left:"@
        + spec_dec(left as u64) + "px;\"></div>"@
}

/// Renders one positioned colour patch.
pub fn lockfile_div(colour: &str, top: u8, left: u8) -> (r: String)
    ensures
        r@ == patch_view(escaped(colour@), top, left),
{
    let escaped_colour = html_escape(colour);
    let mut out = String::new();
    out.append("<div style=\"background-color:");
    out.append(escaped_colour.as_str());
    out.append(";top:");
    let top_text = u64_to_dec(top as u64);
    out.append(top_text.as_str());
    out.append("px;left:");
    let left_text = u64_to_dec(left as u64);
    out.append(left_text.as_str());
    out.append("px;\"></div>");
    proof {
        assert(out@ =~= patch_view(escaped(colour@), top, left));
    }
    out
}

} // verus!
