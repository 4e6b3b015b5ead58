//! Host-service integration helpers: the XML escaping used when writing a
//! launchd unit. The files themselves are written by the surrounding
//! program.

use vstd::prelude::*;

verus! {

/// What one character escapes to in XML attribute/text position.
pub open spec fn xml_escape_char(c: char) -> Seq<char> {
    if c == '&' {
        "&amp;"@
    } else if c == '<' {
        "&lt;"@
    } else if c == '>' {
        "&gt;"@
    } else if c == '"' {
        "&quot;"@
    } else if c == '\'' {
        "&apos;"@
    } else {
        seq![c]
    }
}

/// The escaped form of a whole string.
pub open spec fn xml_escape_spec(s: Seq<char>) -> Seq<char>
    decreases s.len(),
{
    if s.len() == 0 {
        Seq::empty()
    } else {
        xml_escape_spec(s.drop_last()) + xml_escape_char(s.last())
    }
}

proof fn lemma_xml_escape_push(s: Seq<char>, c: char)
    ensures
        xml_escape_spec(s.push(c)) == xml_escape_spec(s) + xml_escape_char(c),
{
    assert(s.push(c).drop_last() =~= s);
    assert(s.push(c).last() == c);
}

/// Escape the XML-reserved characters of a string.
pub fn xml_escape(raw: &str) -> (r: String)
    ensures
        r@ == xml_escape_spec(raw@),
{
    let chars = crate::strings::str_chars(raw);
    let n = chars.len();
    let mut out: Vec<char> = Vec::new();
    let mut i: usize = 0;
    proof {
        assert(chars@.take(0) =~= Seq::<char>::empty());
    }
    while i < n
        invariant
            n == chars@.len(),
            chars@ == raw@,
            i <= n,
            out@ == xml_escape_spec(raw@.take(i as int)),
        decreases n - i,
    {
        let c = chars[i];
        proof {
            lemma_xml_escape_push(raw@.take(i as int), c);
            assert(raw@.take(i as int + 1) =~= raw@.take(i as int).push(c));
        }
        if c == '&' {
            out.push('&');
            out.push('a');
            out.push('m');
            out.push('p');
            out.push(';');
            proof {
                reveal_strlit("&amp;");
                assert(out@ =~= xml_escape_spec(raw@.take(i as int)) + "&amp;"@);
            }
        } else if c == '<' {
            out.push('&');
            out.push('l');
            out.push('t');
            out.push(';');
            proof {
                reveal_strlit("&lt;");
                assert(out@ =~= xml_escape_spec(raw@.take(i as int)) + "&lt;"@);
            }
        } else if c == '>' {
            out.push('&');
            out.push('g');
            out.push('t');
            out.push(';');
            proof {
                reveal_strlit("&gt;");
                assert(out@ =~= xml_escape_spec(raw@.take(i as int)) + "&gt;"@);
            }
        } else if c == '"' {
            out.push('&');
            out.push('q');
            out.push('u');
            out.push('o');
            out.push('t');
            out.push(';');
            proof {
                reveal_strlit("&quot;");
                assert(out@ =~= xml_escape_spec(raw@.take(i as int)) + "&quot;"@);
            }
        } else if c == '\'' {
            out.push('&');
            out.push('a');
            out.push('p');
            out.push('o');
            out.push('s');
            out.push(';');
            proof {
                reveal_strlit("&apos;");
                assert(out@ =~= xml_escape_spec(raw@.take(i as int)) + "&apos;"@);
            }
        } else {
            out.push(c);
            proof {
                assert(out@ =~= xml_escape_spec(raw@.take(i as int)) + seq![c]);
            }
        }
        i = i + 1;
    }
    proof {
        assert(raw@.take(n as int) =~= raw@);
    }
    crate::strings::chars_to_string(&out)
}

/// The label the host service manager files use for the daemon.
pub fn service_label() -> (r: &'static str)
    ensures
        r@ == "com.jarvis.daemon"@,
{
    "com.jarvis.daemon"
}

} // verus!
