//! A small XML writer for S3 responses.

use vstd::prelude::*;
use crate::text::{push_str, push_decimal, push_decimal_i64, dec_digits, dec_int, chars_of};

verus! {

/// The S3 XML namespace.
pub open spec fn s3_xmlns() -> Seq<char> {
    "http://s3.amazonaws.com/doc/2006-03-01/"@
}

/// The XML declaration that S3 responses start with.
pub open spec fn xml_declaration() -> Seq<char> {
    "<?xml version=\"1.0\" encoding=\"UTF-8\"?>"@
}

/// One character as it appears in escaped XML text.
pub open spec fn xml_escape_char(c: char) -> Seq<char> {
    if c == '&' {
        "&amp;"@
    } else if c == '<' {
        "&lt;"@
    } else if c == '>' {
        "&gt;"@
    } else if c == '"' {
        "&quot;"@
    } else if c == '\'' {
        "&apos;"@
    } else {
        seq![c]
    }
}

/// XML text escaping of the five special characters.
pub open spec fn xml_escape(s: Seq<char>) -> Seq<char>
    decreases s.len(),
{
    if s.len() == 0 {
        Seq::empty()
    } else {
        xml_escape(s.drop_last()) + xml_escape_char(s.last())
    }
}

pub open spec fn open_tag(tag: Seq<char>) -> Seq<char> {
    "<"@ + tag + ">"@
}

pub open spec fn open_s3_tag(tag: Seq<char>) -> Seq<char> {
    "<"@ + tag + " xmlns=\""@ + s3_xmlns() + "\">"@
}

pub open spec fn close_tag(tag: Seq<char>) -> Seq<char> {
    "</"@ + tag + ">"@
}

/// An element holding escaped text.
pub open spec fn elem_text(tag: Seq<char>, value: Seq<char>) -> Seq<char> {
    open_tag(tag) + xml_escape(value) + close_tag(tag)
}

pub open spec fn bool_text(b: bool) -> Seq<char> {
    if b {
        "true"@
    } else {
        "false"@
    }
}

/// Appends `s` to `buf` with XML special characters escaped.
pub fn xml_escape_into(buf: &mut String, s: &str)
    ensures
        final(buf)@ == old(buf)@ + xml_escape(s@),
{
    let cs = chars_of(s);
    let ghost start = buf@;
    let mut i: usize = 0;
    while i < cs.len()
        invariant
            i <= cs.len(),
            buf@ == start + xml_escape(cs@.take(i as int)),
        decreases cs.len() - i,
    {
        let ch = cs[i];
        assert(cs@.take(i as int + 1).drop_last() =~= cs@.take(i as int));
        if ch == '&' {
            push_str(buf, "&amp;");
        } else if ch == '<' {
            push_str(buf, "&lt;");
        } else if ch == '>' {
            push_str(buf, "&gt;");
        } else if ch == '"' {
            push_str(buf, "&quot;");
        } else if ch == '\'' {
            push_str(buf, "&apos;");
        } else {
            crate::text::push_char(buf, ch);
        }
        assert(buf@ =~= start + xml_escape(cs@.take(i as int + 1)));
        i = i + 1;
    }
    assert(cs@.take(cs.len() as int) =~= s@);
}

/// Simple XML writer for S3 responses.
pub struct XmlWriter {
    buf: String,
}

impl View for XmlWriter {
    type V = Seq<char>;

    /// The text written so far.
    closed spec fn view(&self) -> Seq<char> {
        self.buf@
    }
}

impl XmlWriter {
    pub fn new() -> (w: Self)
        ensures
            w@ == Seq::<char>::empty(),
    {
        XmlWriter { buf: String::new() }
    }

    pub fn declaration(&mut self) -> (r: &mut Self)
        ensures
            r@ == old(self)@ + xml_declaration(),
            *final(self) == *final(r),
    {
        push_str(&mut self.buf, "<?xml version=\"1.0\" encoding=\"UTF-8\"?>");
        self
    }

    pub fn open(&mut self, tag: &str) -> (r: &mut Self)
        ensures
            r@ == old(self)@ + open_tag(tag@),
            *final(self) == *final(r),
    {
        push_str(&mut self.buf, "<");
        push_str(&mut self.buf, tag);
        push_str(&mut self.buf, ">");
        assert(self@ =~= old(self)@ + open_tag(tag@));
        self
    }

    pub fn open_s3(&mut self, tag: &str) -> (r: &mut Self)
        ensures
            r@ == old(self)@ + open_s3_tag(tag@),
            *final(self) == *final(r),
    {
        push_str(&mut self.buf, "<");
        push_str(&mut self.buf, tag);
        push_str(&mut self.buf, " xmlns=\"");
        push_str(&mut self.buf, "http://s3.amazonaws.com/doc/2006-03-01/");
        push_str(&mut self.buf, "\">");
        assert(self@ =~= old(self)@ + open_s3_tag(tag@));
        self
    }

    pub fn close(&mut self, tag: &str) -> (r: &mut Self)
        ensures
            r@ == old(self)@ + close_tag(tag@),
            *final(self) == *final(r),
    {
        push_str(&mut self.buf, "</");
        push_str(&mut self.buf, tag);
        push_str(&mut self.buf, ">");
        assert(self@ =~= old(self)@ + close_tag(tag@));
        self
    }

    pub fn elem(&mut self, tag: &str, value: &str) -> (r: &mut Self)
        ensures
            r@ == old(self)@ + elem_text(tag@, value@),
            *final(self) == *final(r),
    {
        push_str(&mut self.buf, "<");
        push_str(&mut self.buf, tag);
        push_str(&mut self.buf, ">");
        xml_escape_into(&mut self.buf, value);
        push_str(&mut self.buf, "</");
        push_str(&mut self.buf, tag);
        push_str(&mut self.buf, ">");
        assert(self@ =~= old(self)@ + elem_text(tag@, value@));
        self
    }

    pub fn elem_opt(&mut self, tag: &str, value: &Option<String>) -> (r: &mut Self)
        ensures
            r@ == match value {
                Some(v) => old(self)@ + elem_text(tag@, v@),
                None => old(self)@,
            },
            *final(self) == *final(r),
    {
        if let Some(v) = value {
            self.elem(tag, v.as_str());
        }
        self
    }

    pub fn elem_bool(&mut self, tag: &str, value: bool) -> (r: &mut Self)
        ensures
            r@ == old(self)@ + elem_text(tag@, bool_text(value)),
            *final(self) == *final(r),
    {
        self.elem(tag, if value { "true" } else { "false" })
    }

    pub fn elem_u64(&mut self, tag: &str, value: u64) -> (r: &mut Self)
        ensures
            r@ == old(self)@ + elem_text(tag@, dec_digits(value as nat)),
            *final(self) == *final(r),
    {
        push_str(&mut self.buf, "<");
        push_str(&mut self.buf, tag);
        push_str(&mut self.buf, ">");
        push_decimal(&mut self.buf, value);
        push_str(&mut self.buf, "</");
        push_str(&mut self.buf, tag);
        push_str(&mut self.buf, ">");
        proof { lemma_escape_decimal(value as int); }
        assert(self@ =~= old(self)@ + elem_text(tag@, dec_digits(value as nat)));
        self
    }

    pub fn elem_i32(&mut self, tag: &str, value: i32) -> (r: &mut Self)
        ensures
            r@ == old(self)@ + elem_text(tag@, dec_int(value as int)),
            *final(self) == *final(r),
    {
        push_str(&mut self.buf, "<");
        push_str(&mut self.buf, tag);
        push_str(&mut self.buf, ">");
        push_decimal_i64(&mut self.buf, value as i64);
        push_str(&mut self.buf, "</");
        push_str(&mut self.buf, tag);
        push_str(&mut self.buf, ">");
        proof { lemma_escape_decimal(value as int); }
        assert(self@ =~= old(self)@ + elem_text(tag@, dec_int(value as int)));
        self
    }

    pub fn raw(&mut self, s: &str) -> (r: &mut Self)
        ensures
            r@ == old(self)@ + s@,
            *final(self) == *final(r),
    {
        push_str(&mut self.buf, s);
        self
    }

    pub fn finish(self) -> (s: String)
        ensures
            s@ == self@,
    {
        self.buf
    }
}

/// Characters that escaping leaves alone.
pub open spec fn plain_text(s: Seq<char>) -> bool {
    forall|i: int| 0 <= i < s.len() ==> {
        let c = #[trigger] s[i];
        c != '&' && c != '<' && c != '>' && c != '"' && c != '\''
    }
}

/// Escaping leaves text without special characters unchanged.
pub proof fn lemma_escape_plain(s: Seq<char>)
    requires
        plain_text(s),
    ensures
        xml_escape(s) == s,
    decreases s.len(),
{
    if s.len() > 0 {
        let t = s.drop_last();
        assert(plain_text(t)) by {
            assert forall|i: int| 0 <= i < t.len() implies #[trigger] t[i] != '&' && t[i] != '<' && t[i] != '>' && t[i] != '"' && t[i] != '\'' by {
                assert(t[i] == s[i]);
            }
        }
        lemma_escape_plain(t);
        assert(s.last() == s[s.len() - 1]);
        assert(s =~= t.push(s.last()));
    }
}

/// Decimal numbers need no escaping.
pub proof fn lemma_escape_decimal(n: int)
    ensures
        xml_escape(dec_int(n)) == dec_int(n),
        n >= 0 ==> xml_escape(dec_digits(n as nat)) == dec_digits(n as nat),
{
    crate::text::lemma_dec_int_chars(n);
    assert(plain_text(dec_int(n))) by {
        assert forall|i: int| 0 <= i < dec_int(n).len() implies #[trigger] dec_int(n)[i] != '&' && dec_int(n)[i] != '<' && dec_int(n)[i] != '>' && dec_int(n)[i] != '"' && dec_int(n)[i] != '\'' by {
            assert(crate::text::is_digit(dec_int(n)[i]) || dec_int(n)[i] == '-');
        }
    }
    lemma_escape_plain(dec_int(n));
}

} // verus!
