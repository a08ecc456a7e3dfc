use vstd::prelude::*;

verus! {

/// The toast notifications the application shows.
#[derive(Debug, Clone, Copy, PartialEq, Eq, Structural)]
pub enum Notice {
    /// The headset came back and the saved audio state was restored.
    HeadsetConnected,
    /// The headset went away and the system was muted.
    HeadsetDisconnected,
    /// An update was found and downloaded.
    UpdateDownloaded,
    /// No newer version exists.
    UpToDate,
    /// Checking for an update failed.
    UpdateCheckFailed,
}

/// The title of every notification.
pub open spec fn notice_title() -> Seq<char> {
    "Hypnos Audio"@
}

/// The text of each notification.
pub open spec fn notice_body(n: Notice) -> Seq<char> {
    match n {
        Notice::HeadsetConnected => "耳机已连接，音量已恢复"@,
        Notice::HeadsetDisconnected => "耳机已断开，系统已静音"@,
        Notice::UpdateDownloaded => "发现新版本，已下载，将在下次启动时更新"@,
        Notice::UpToDate => "当前已是最新版本"@,
        Notice::UpdateCheckFailed => "更新检查失败，请稍后再试"@,
    }
}

/// The tag of each notification: a notification replaces an earlier one with the same tag.
pub open spec fn notice_tag(n: Notice) -> Option<Seq<char>> {
    match n {
        Notice::HeadsetConnected => Some("headset-connected"@),
        Notice::HeadsetDisconnected => Some("headset-disconnected"@),
        _ => None,
    }
}

impl Notice {
    pub fn title(&self) -> (t: &'static str)
        ensures
            t@ == notice_title(),
    {
        "Hypnos Audio"
    }

    pub fn body(&self) -> (b: &'static str)
        ensures
            b@ == notice_body(*self),
    {
        match self {
            Notice::HeadsetConnected => "耳机已连接，音量已恢复",
            Notice::HeadsetDisconnected => "耳机已断开，系统已静音",
            Notice::UpdateDownloaded => "发现新版本，已下载，将在下次启动时更新",
            Notice::UpToDate => "当前已是最新版本",
            Notice::UpdateCheckFailed => "更新检查失败，请稍后再试",
        }
    }

    pub fn tag(&self) -> (t: Option<&'static str>)
        ensures
            match t {
                Some(s) => notice_tag(*self) == Some(s@),
                None => notice_tag(*self) is None,
            },
    {
        match self {
            Notice::HeadsetConnected => Some("headset-connected"),
            Notice::HeadsetDisconnected => Some("headset-disconnected"),
            _ => None,
        }
    }
}

/// How one character is written in XML text: `&`, `<`, `>` and `"` become entities,
/// every other character stands for itself.
pub open spec fn escape_char(c: char) -> Seq<char> {
    if c == '&' {
        seq!['&', 'a', 'm', 'p', ';']
    } else if c == '<' {
        seq!['&', 'l', 't', ';']
    } else if c == '>' {
        seq!['&', 'g', 't', ';']
    } else if c == '"' {
        seq!['&', 'q', 'u', 'o', 't', ';']
    } else {
        seq![c]
    }
}

/// `s` with every character escaped.
pub open spec fn xml_escaped(s: Seq<char>) -> Seq<char>
    decreases s.len(),
{
    if s.len() == 0 {
        Seq::empty()
    } else {
        xml_escaped(s.drop_last()) + escape_char(s.last())
    }
}

/// Escapes the characters `&`, `<`, `>` and `"` of `s` for XML text.
pub fn xml_escape(s: &str) -> (r: String)
    ensures
        r@ == xml_escaped(s@),
{
    let n = s.unicode_len();
    let mut out = String::new();
    let mut i: usize = 0;
    proof {
        reveal_strlit("&amp;");
        reveal_strlit("&lt;");
        reveal_strlit("&gt;");
        reveal_strlit("&quot;");
        assert(s@.take(0) =~= Seq::<char>::empty());
    }
    while i < n
        invariant
            n == s@.len(),
            i <= n,
            out@ == xml_escaped(s@.take(i as int)),
            "&amp;"@ == seq!['&', 'a', 'm', 'p', ';'],
            "&lt;"@ == seq!['&', 'l', 't', ';'],
            "&gt;"@ == seq!['&', 'g', 't', ';'],
            "&quot;"@ == seq!['&', 'q', 'u', 'o', 't', ';'],
        decreases n - i,
    {
        let c = s.get_char(i);
        proof {
            assert(s@.take(i + 1).drop_last() =~= s@.take(i as int));
            assert(s@.take(i + 1).last() == c);
        }
        if c == '&' {
            out.append("&amp;");
        } else if c == '<' {
            out.append("&lt;");
        } else if c == '>' {
            out.append("&gt;");
        } else if c == '"' {
            out.append("&quot;");
        } else {
            let one = s.substring_char(i, i + 1);
            assert(one@ =~= seq![c]);
            out.append(one);
        }
        i = i + 1;
    }
    proof {
        assert(s@.take(n as int) =~= s@);
    }
    out
}

/// The markup of a toast that shows the application icon `icon` (the URI of an
/// image, in place of the application logo) and `title` and `body` as its two
/// lines of text; all three already escaped.
pub open spec fn toast_markup(icon: Seq<char>, title: Seq<char>, body: Seq<char>) -> Seq<char> {
    "<toast>\n  <visual>\n    <binding template=\"ToastText02\">\n      <image placement=\"appLogoOverride\" src=\""@
        + icon + "\"/>\n      <text id=\"1\">"@ + title + "</text>\n      <text id=\"2\">"@ + body
        + "</text>\n    </binding>\n  </visual>\n</toast>"@
}

/// The XML document of a two-line toast notification carrying the application
/// icon found at the URI `icon`.
pub fn toast_xml(icon: &str, title: &str, body: &str) -> (r: String)
    ensures
        r@ == toast_markup(xml_escaped(icon@), xml_escaped(title@), xml_escaped(body@)),
{
    let i = xml_escape(icon);
    let t = xml_escape(title);
    let b = xml_escape(body);
    let mut out = String::from_str(
        "<toast>\n  <visual>\n    <binding template=\"ToastText02\">\n      <image placement=\"appLogoOverride\" src=\"",
    );
    out.append(i.as_str());
    out.append("\"/>\n      <text id=\"1\">");
    out.append(t.as_str());
    out.append("</text>\n      <text id=\"2\">");
    out.append(b.as_str());
    out.append("</text>\n    </binding>\n  </visual>\n</toast>");
    out
}

/// No character of the escaped text is `<`, `>` or `"`, so the text cannot close
/// or open markup.
pub proof fn law_escaped_has_no_markup(s: Seq<char>)
    ensures
        forall|k: int|
            0 <= k < xml_escaped(s).len() ==> {
                let c = #[trigger] xml_escaped(s)[k];
                c != '<' && c != '>' && c != '"'
            },
    decreases s.len(),
{
    if s.len() > 0 {
        law_escaped_has_no_markup(s.drop_last());
        let a = xml_escaped(s.drop_last());
        let b = escape_char(s.last());
        assert(xml_escaped(s) == a + b);
        assert forall|k: int| 0 <= k < xml_escaped(s).len() implies {
            let c = #[trigger] xml_escaped(s)[k];
            c != '<' && c != '>' && c != '"'
        } by {
            if k < a.len() {
                assert(xml_escaped(s)[k] == a[k]);
            } else {
                assert(xml_escaped(s)[k] == b[k - a.len()]);
            }
        }
    }
}

/// Text without the four special characters is written as it is.
pub proof fn law_plain_text_unchanged(s: Seq<char>)
    requires
        forall|k: int|
            0 <= k < s.len() ==> {
                let c = #[trigger] s[k];
                c != '&' && c != '<' && c != '>' && c != '"'
            },
    ensures
        xml_escaped(s) == s,
    decreases s.len(),
{
    if s.len() > 0 {
        assert forall|k: int| 0 <= k < s.drop_last().len() implies {
            let c = #[trigger] s.drop_last()[k];
            c != '&' && c != '<' && c != '>' && c != '"'
        } by {
            assert(s.drop_last()[k] == s[k]);
        }
        law_plain_text_unchanged(s.drop_last());
        assert(s[s.len() - 1] == s.last());
        assert(s.drop_last() + seq![s.last()] =~= s);
    }
}

/// Reads XML text back: the entities `&amp;`, `&lt;`, `&gt;` and `&quot;` become
/// the characters they stand for, every other character stands for itself.
pub open spec fn xml_unescaped(s: Seq<char>) -> Seq<char>
    decreases s.len(),
{
    if s.len() == 0 {
        Seq::empty()
    } else if s.len() >= 5 && s.take(5) == seq!['&', 'a', 'm', 'p', ';'] {
        seq!['&'] + xml_unescaped(s.skip(5))
    } else if s.len() >= 4 && s.take(4) == seq!['&', 'l', 't', ';'] {
        seq!['<'] + xml_unescaped(s.skip(4))
    } else if s.len() >= 4 && s.take(4) == seq!['&', 'g', 't', ';'] {
        seq!['>'] + xml_unescaped(s.skip(4))
    } else if s.len() >= 6 && s.take(6) == seq!['&', 'q', 'u', 'o', 't', ';'] {
        seq!['"'] + xml_unescaped(s.skip(6))
    } else {
        seq![s[0]] + xml_unescaped(s.drop_first())
    }
}

/// Escaping text piece by piece gives the escape of the whole.
pub proof fn lemma_escaped_concat(a: Seq<char>, b: Seq<char>)
    ensures
        xml_escaped(a + b) == xml_escaped(a) + xml_escaped(b),
    decreases b.len(),
{
    if b.len() == 0 {
        assert(a + b =~= a);
        assert(xml_escaped(b) =~= Seq::<char>::empty());
        assert(xml_escaped(a) + xml_escaped(b) =~= xml_escaped(a));
    } else {
        lemma_escaped_concat(a, b.drop_last());
        assert((a + b).drop_last() =~= a + b.drop_last());
        assert((a + b).last() == b.last());
        assert(xml_escaped(a) + xml_escaped(b) =~= xml_escaped(a) + xml_escaped(b.drop_last())
            + escape_char(b.last()));
    }
}

/// Reading back the escape of one character followed by any text gives the
/// character followed by the reading of that text.
pub proof fn lemma_unescape_one(c: char, t: Seq<char>)
    ensures
        xml_unescaped(escape_char(c) + t) == seq![c] + xml_unescaped(t),
{
    let s = escape_char(c) + t;
    let e = escape_char(c);
    if c == '&' {
        assert(s.take(5) =~= e);
        assert(s.skip(5) =~= t);
    } else if c == '<' {
        assert(s.take(4) =~= e);
        assert(s.skip(4) =~= t);
        if s.len() >= 5 {
            assert(s.take(5)[1] == 'l');
        }
    } else if c == '>' {
        assert(s.take(4) =~= e);
        assert(s.skip(4) =~= t);
        if s.len() >= 5 {
            assert(s.take(5)[1] == 'g');
        }
        assert(s.take(4)[1] == 'g');
    } else if c == '"' {
        assert(s.take(6) =~= e);
        assert(s.skip(6) =~= t);
        assert(s.take(5)[1] == 'q');
        assert(s.take(4)[1] == 'q');
    } else {
        assert(s[0] == c);
        if s.len() >= 4 {
            assert(s.take(4)[0] == c);
        }
        if s.len() >= 5 {
            assert(s.take(5)[0] == c);
        }
        if s.len() >= 6 {
            assert(s.take(6)[0] == c);
        }
        assert(s.drop_first() =~= t);
    }
}

/// Reading the escaped text back gives the text that was escaped.
pub proof fn law_escape_round_trip(s: Seq<char>)
    ensures
        xml_unescaped(xml_escaped(s)) == s,
    decreases s.len(),
{
    if s.len() == 0 {
    } else {
        let rest = s.drop_first();
        law_escape_round_trip(rest);
        assert(seq![s[0]] + rest =~= s);
        lemma_escaped_concat(seq![s[0]], rest);
        let one = seq![s[0]];
        assert(one.drop_last() =~= Seq::<char>::empty());
        assert(one.last() == s[0]);
        assert(xml_escaped(one.drop_last()) == Seq::<char>::empty());
        assert(xml_escaped(one) =~= escape_char(s[0]));
        lemma_unescape_one(s[0], xml_escaped(rest));
    }
}

/// Different texts have different escapes.
pub proof fn law_escape_injective(s1: Seq<char>, s2: Seq<char>)
    requires
        xml_escaped(s1) == xml_escaped(s2),
    ensures
        s1 == s2,
{
    law_escape_round_trip(s1);
    law_escape_round_trip(s2);
}

/// Only the two headset notices carry a tag, and their tags differ, so a headset
/// toast replaces only the previous toast of the same kind and an update toast
/// never replaces a headset toast.
pub proof fn law_only_headset_notices_tagged(n: Notice)
    ensures
        (notice_tag(n) is Some) <==> (n == Notice::HeadsetConnected || n
            == Notice::HeadsetDisconnected),
        notice_tag(Notice::HeadsetConnected) != notice_tag(Notice::HeadsetDisconnected),
        notice_tag(Notice::HeadsetConnected) == Some(
            seq![
                'h', 'e', 'a', 'd', 's', 'e', 't', '-', 'c', 'o', 'n', 'n', 'e', 'c', 't', 'e', 'd',
            ],
        ),
        notice_tag(Notice::HeadsetDisconnected) == Some(
            seq![
                'h', 'e', 'a', 'd', 's', 'e', 't', '-', 'd', 'i', 's', 'c', 'o', 'n', 'n', 'e', 'c',
                't', 'e', 'd',
            ],
        ),
{
    reveal_strlit("headset-connected");
    reveal_strlit("headset-disconnected");
    assert("headset-connected"@.len() != "headset-disconnected"@.len());
}

/// Every notice has its own text, and all share the application's name as title.
pub proof fn law_notice_bodies_distinct(a: Notice, b: Notice)
    ensures
        notice_body(a) == notice_body(b) ==> a == b,
        notice_body(a).len() > 0,
        notice_title() == seq!['H', 'y', 'p', 'n', 'o', 's', ' ', 'A', 'u', 'd', 'i', 'o'],
{
    reveal_strlit("Hypnos Audio");
    reveal_strlit("耳机已连接，音量已恢复");
    reveal_strlit("耳机已断开，系统已静音");
    reveal_strlit("发现新版本，已下载，将在下次启动时更新");
    reveal_strlit("当前已是最新版本");
    reveal_strlit("更新检查失败，请稍后再试");
    let c = "耳机已连接，音量已恢复"@;
    let d = "耳机已断开，系统已静音"@;
    let u = "发现新版本，已下载，将在下次启动时更新"@;
    let t = "当前已是最新版本"@;
    let f = "更新检查失败，请稍后再试"@;
    assert(c[3] != d[3]);
    assert(c[0] != u[0] && c[0] != t[0] && c[0] != f[0]);
    assert(d[0] != u[0] && d[0] != t[0] && d[0] != f[0]);
    assert(u[0] != t[0] && u[0] != f[0] && t[0] != f[0]);
}

/// The toast carries each of its three arguments whole, at fixed places: the icon
/// right after the opening markup (102 characters), the title after the icon's
/// closing markup (23 characters), and the body after `</text>` and the opening of
/// the second line (27 characters), followed by `</text>` and the closing markup
/// (43 characters in all).
pub proof fn law_toast_carries_arguments_whole(icon: Seq<char>, title: Seq<char>, body: Seq<char>)
    ensures
        ({
            let x = toast_markup(icon, title, body);
            let i = icon.len() as int;
            let t = title.len() as int;
            let b = body.len() as int;
            &&& x.len() == 195 + i + t + b
            &&& x.subrange(102, 102 + i) == icon
            &&& x.subrange(125 + i, 125 + i + t) == title
            &&& x.subrange(152 + i + t, 152 + i + t + b) == body
            &&& x.subrange(139 + i + t, 152 + i + t) == seq![
                '<', 't', 'e', 'x', 't', ' ', 'i', 'd', '=', '"', '2', '"', '>',
            ]
            &&& x.subrange(152 + i + t + b, 159 + i + t + b) == seq![
                '<', '/', 't', 'e', 'x', 't', '>',
            ]
        }),
{
    let p = "<toast>\n  <visual>\n    <binding template=\"ToastText02\">\n      <image placement=\"appLogoOverride\" src=\""@;
    let m1 = "\"/>\n      <text id=\"1\">"@;
    let m2 = "</text>\n      <text id=\"2\">"@;
    let e = "</text>\n    </binding>\n  </visual>\n</toast>"@;
    reveal_strlit(
        "<toast>\n  <visual>\n    <binding template=\"ToastText02\">\n      <image placement=\"appLogoOverride\" src=\"",
    );
    reveal_strlit("\"/>\n      <text id=\"1\">");
    reveal_strlit("</text>\n      <text id=\"2\">");
    reveal_strlit("</text>\n    </binding>\n  </visual>\n</toast>");
    assert(p.len() == 102);
    assert(m1.len() == 23);
    assert(m2.len() == 27);
    assert(e.len() == 43);
    let x = toast_markup(icon, title, body);
    let i = icon.len() as int;
    let t = title.len() as int;
    let b = body.len() as int;
    assert(x == p + icon + m1 + title + m2 + body + e);
    assert(x.subrange(102, 102 + i) =~= icon);
    assert(x.subrange(125 + i, 125 + i + t) =~= title);
    assert(x.subrange(152 + i + t, 152 + i + t + b) =~= body);
    assert(x.subrange(139 + i + t, 152 + i + t) =~= m2.subrange(14, 27));
    assert(x.subrange(152 + i + t + b, 159 + i + t + b) =~= e.subrange(0, 7));
}

} // verus!
