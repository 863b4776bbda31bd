use vstd::prelude::*;

use vstd::utf8::encode_utf8;

use crate::id::UserId;
use crate::roblox::user::PartialUser;
use crate::text::{chars_match, chars_of, decimal, decimal_string, push_str, texts};

verus! {

/// A nickname format. Each placeholder `{name}` (a `{`, then the shortest run
/// of characters without a line break up to the next `}`) is replaced by the
/// value it names: `roblox-username`, `roblox-id`, `discord-id`,
/// `discord-name` or `display-name`. Placeholders with any other name stay as
/// they are; everything else is copied.
#[derive(Debug)]
pub struct Template(pub String);

/// The position of the first `}` at or after `i`, unless a line break or the
/// end of the text comes first.
pub open spec fn closing_brace(s: Seq<char>, i: int) -> Option<int>
    decreases s.len() - i,
{
    if i < 0 || i >= s.len() || s[i] == '\n' {
        None
    } else if s[i] == '}' {
        Some(i)
    } else {
        closing_brace(s, i + 1)
    }
}

pub proof fn lemma_closing_brace(s: Seq<char>, i: int)
    ensures
        closing_brace(s, i) matches Some(j) ==> i <= j < s.len() && s[j] == '}',
    decreases s.len() - i,
{
    if 0 <= i < s.len() && s[i] != '\n' && s[i] != '}' {
        lemma_closing_brace(s, i + 1);
    }
}

/// What the placeholder named `name` (written `whole`, braces included)
/// becomes in a nickname.
pub open spec fn placeholder_value(
    name: Seq<char>,
    whole: Seq<char>,
    user: PartialUser,
    discord_id: UserId,
    discord_name: Seq<char>,
) -> Seq<char> {
    if name == "roblox-username"@ {
        user.name@
    } else if name == "roblox-id"@ {
        decimal(user.id.0 as nat)
    } else if name == "discord-id"@ {
        decimal(discord_id.0 as nat)
    } else if name == "discord-name"@ {
        discord_name
    } else if name == "display-name"@ {
        match user.display_name {
            Some(d) => d@,
            None => Seq::empty(),
        }
    } else {
        whole
    }
}

/// The nickname that the template text `s` gives from position `p` on.
pub open spec fn render(
    s: Seq<char>,
    p: int,
    user: PartialUser,
    discord_id: UserId,
    discord_name: Seq<char>,
) -> Seq<char>
    decreases s.len() - p,
{
    if p < 0 || p >= s.len() {
        Seq::empty()
    } else if s[p] == '{' && closing_brace(s, p + 1) is Some {
        let j = closing_brace(s, p + 1)->0;
        proof {
            lemma_closing_brace(s, p + 1);
        }
        placeholder_value(s.subrange(p + 1, j), s.subrange(p, j + 1), user, discord_id, discord_name)
            + render(s, j + 1, user, discord_id, discord_name)
    } else {
        seq![s[p]] + render(s, p + 1, user, discord_id, discord_name)
    }
}

/// The placeholders of `s` from position `p` on, braces included, leftmost first.
pub open spec fn holes(s: Seq<char>, p: int) -> Seq<Seq<char>>
    decreases s.len() - p,
{
    if p < 0 || p >= s.len() {
        Seq::empty()
    } else if s[p] == '{' && closing_brace(s, p + 1) is Some {
        let j = closing_brace(s, p + 1)->0;
        proof {
            lemma_closing_brace(s, p + 1);
        }
        seq![s.subrange(p, j + 1)] + holes(s, j + 1)
    } else {
        holes(s, p + 1)
    }
}

/// The text around the placeholders of `s` from position `p` on: what comes before
/// the first, between each two, and after the last.
pub open spec fn gaps(s: Seq<char>, p: int) -> Seq<Seq<char>>
    decreases s.len() - p,
{
    if p < 0 || p >= s.len() {
        seq![Seq::<char>::empty()]
    } else if s[p] == '{' && closing_brace(s, p + 1) is Some {
        let j = closing_brace(s, p + 1)->0;
        proof {
            lemma_closing_brace(s, p + 1);
        }
        seq![Seq::<char>::empty()] + gaps(s, j + 1)
    } else {
        let g = gaps(s, p + 1);
        g.update(0, seq![s[p]] + g[0])
    }
}

/// What the placeholder `whole` (braces included) becomes in a nickname.
pub open spec fn hole_value(whole: Seq<char>, user: PartialUser, discord_id: UserId, discord_name: Seq<char>) -> Seq<
    char,
> {
    placeholder_value(whole.subrange(1, whole.len() - 1), whole, user, discord_id, discord_name)
}

/// The pieces of text `g` with the values of the placeholders `h` between them.
pub open spec fn weave(
    g: Seq<Seq<char>>,
    h: Seq<Seq<char>>,
    user: PartialUser,
    discord_id: UserId,
    discord_name: Seq<char>,
) -> Seq<char>
    decreases h.len(),
{
    if h.len() == 0 {
        g[0]
    } else {
        g[0] + hole_value(h[0], user, discord_id, discord_name) + weave(
            g.drop_first(),
            h.drop_first(),
            user,
            discord_id,
            discord_name,
        )
    }
}

/// Rendering is weaving the text around the placeholders with their values.
proof fn lemma_render_woven(s: Seq<char>, p: int, user: PartialUser, discord_id: UserId, discord_name: Seq<char>)
    requires
        0 <= p,
    ensures
        gaps(s, p).len() == holes(s, p).len() + 1,
        forall|i: int| 0 <= i < holes(s, p).len() ==> #[trigger] holes(s, p)[i].len() >= 2,
        render(s, p, user, discord_id, discord_name) == weave(gaps(s, p), holes(s, p), user, discord_id, discord_name),
    decreases s.len() - p,
{
    if p < s.len() {
        if s[p] == '{' && closing_brace(s, p + 1) is Some {
            let j = closing_brace(s, p + 1)->0;
            lemma_closing_brace(s, p + 1);
            lemma_render_woven(s, j + 1, user, discord_id, discord_name);
            let g = gaps(s, p);
            let h = holes(s, p);
            let w = s.subrange(p, j + 1);
            assert(g.drop_first() =~= gaps(s, j + 1));
            assert(h.drop_first() =~= holes(s, j + 1));
            assert(w.subrange(1, w.len() - 1) =~= s.subrange(p + 1, j));
            assert forall|i: int| 0 <= i < h.len() implies #[trigger] h[i].len() >= 2 by {
                if i > 0 {
                    assert(h[i] == holes(s, j + 1)[i - 1]);
                }
            }
            assert(render(s, p, user, discord_id, discord_name) =~= weave(g, h, user, discord_id, discord_name));
        } else {
            lemma_render_woven(s, p + 1, user, discord_id, discord_name);
            let g1 = gaps(s, p + 1);
            let h = holes(s, p + 1);
            let g = gaps(s, p);
            assert(holes(s, p) == h);
            if h.len() == 0 {
                assert(render(s, p, user, discord_id, discord_name) =~= weave(g, h, user, discord_id, discord_name));
            } else {
                assert(g.drop_first() =~= g1.drop_first());
                assert(render(s, p, user, discord_id, discord_name) =~= weave(g, h, user, discord_id, discord_name));
            }
        }
    }
}

/// The matches of the pattern `\{(.*?)\}` in `text` (`regex::Regex::find_iter`),
/// each as its byte range and its text. Claimed: the byte ranges are the
/// [`placeholders`](crate::custom::execute::placeholders) of the text's bytes and
/// the texts are its [`holes`]: leftmost first, not overlapping, each a `{`, the
/// shortest run without a line break, and a `}`.
#[verifier::external_body]
pub(crate) fn pattern_matches(text: &str) -> (r: Vec<(usize, usize, String)>)
    ensures
        r@.map_values(|x: (usize, usize, String)| (x.0 as int, x.1 as int)) == crate::custom::execute::placeholders(
            encode_utf8(text@),
            0,
        ),
        r@.map_values(|x: (usize, usize, String)| x.2@) == holes(text@, 0),
{
    regex::Regex::new(r"\{(.*?)\}").unwrap().find_iter(text).map(|m| (m.start(), m.end(), m.as_str().to_owned())).collect()
}

/// The text around the matches of the pattern `\{(.*?)\}` in `text`
/// (`regex::Regex::split`). Claimed: they are the text's [`gaps`].
#[verifier::external_body]
fn pattern_gaps(text: &str) -> (r: Vec<String>)
    ensures
        texts(r@) == gaps(text@, 0),
{
    regex::Regex::new(r"\{(.*?)\}").unwrap().split(text).map(|p| p.to_owned()).collect()
}

/// The text that the placeholder `whole` becomes.
fn hole_text(
    whole: &str,
    roblox_user: &PartialUser,
    discord_id: UserId,
    discord_name: &str,
    roblox_id: &String,
    discord_id_text: &String,
) -> (t: String)
    requires
        whole@.len() >= 2,
        roblox_id@ == decimal(roblox_user.id.0 as nat),
        discord_id_text@ == decimal(discord_id.0 as nat),
    ensures
        t@ == hole_value(whole@, *roblox_user, discord_id, discord_name@),
{
    let cs = chars_of(whole);
    let end = cs.len() - 1;
    let mut out = String::new();
    if chars_match(cs.as_slice(), 1, end, "roblox-username") {
        push_str(&mut out, roblox_user.name.as_str());
    } else if chars_match(cs.as_slice(), 1, end, "roblox-id") {
        push_str(&mut out, roblox_id.as_str());
    } else if chars_match(cs.as_slice(), 1, end, "discord-id") {
        push_str(&mut out, discord_id_text.as_str());
    } else if chars_match(cs.as_slice(), 1, end, "discord-name") {
        push_str(&mut out, discord_name);
    } else if chars_match(cs.as_slice(), 1, end, "display-name") {
        match &roblox_user.display_name {
            Some(d) => push_str(&mut out, d.as_str()),
            None => {},
        }
    } else {
        push_str(&mut out, whole);
    }
    assert(out@ =~= hole_value(whole@, *roblox_user, discord_id, discord_name@));
    out
}

impl Template {
    /// The nickname this template gives a member: the template with every
    /// placeholder replaced, as [`render`] states.
    pub fn nickname(&self, roblox_user: &PartialUser, discord_id: UserId, discord_name: &str) -> (n:
        String)
        ensures
            n@ == render(self.0@, 0, *roblox_user, discord_id, discord_name@),
    {
        let roblox_id = decimal_string(roblox_user.id.0);
        let discord_id_text = decimal_string(discord_id.0);
        let text = self.0.as_str();
        let pieces = pattern_gaps(text);
        let found = pattern_matches(text);
        let ghost g = gaps(self.0@, 0);
        let ghost h = holes(self.0@, 0);
        proof {
            lemma_render_woven(self.0@, 0, *roblox_user, discord_id, discord_name@);
            assert(found@.len() == h.len()) by {
                assert(found@.map_values(|x: (usize, usize, String)| x.2@).len() == found@.len());
            }
            assert(pieces@.len() == g.len());
        }
        let mut out = String::new();
        let mut i: usize = 0;
        assert(g.subrange(0, g.len() as int) =~= g);
        assert(h.subrange(0, h.len() as int) =~= h);
        assert(out@ + weave(g, h, *roblox_user, discord_id, discord_name@) =~= weave(
            g,
            h,
            *roblox_user,
            discord_id,
            discord_name@,
        ));
        while i < found.len()
            invariant
                i <= found@.len(),
                found@.len() == h.len(),
                pieces@.len() == h.len() + 1,
                texts(pieces@) == g,
                found@.map_values(|x: (usize, usize, String)| x.2@) == h,
                forall|k: int| 0 <= k < h.len() ==> #[trigger] h[k].len() >= 2,
                roblox_id@ == decimal(roblox_user.id.0 as nat),
                discord_id_text@ == decimal(discord_id.0 as nat),
                out@ + weave(
                    g.subrange(i as int, g.len() as int),
                    h.subrange(i as int, h.len() as int),
                    *roblox_user,
                    discord_id,
                    discord_name@,
                ) == weave(g, h, *roblox_user, discord_id, discord_name@),
            decreases found@.len() - i,
        {
            let ghost before = out@;
            let ghost gi = g.subrange(i as int, g.len() as int);
            let ghost hi = h.subrange(i as int, h.len() as int);
            assert(pieces@[i as int]@ == g[i as int]);
            assert(found@[i as int].2@ == h[i as int]);
            push_str(&mut out, pieces[i].as_str());
            let value = hole_text(found[i].2.as_str(), roblox_user, discord_id, discord_name, &roblox_id, &discord_id_text);
            push_str(&mut out, value.as_str());
            assert(gi.drop_first() =~= g.subrange(i + 1, g.len() as int));
            assert(hi.drop_first() =~= h.subrange(i + 1, h.len() as int));
            assert(out@ + weave(
                g.subrange(i + 1, g.len() as int),
                h.subrange(i + 1, h.len() as int),
                *roblox_user,
                discord_id,
                discord_name@,
            ) =~= before + weave(gi, hi, *roblox_user, discord_id, discord_name@));
            i = i + 1;
        }
        assert(pieces@[i as int]@ == g[i as int]);
        push_str(&mut out, pieces[i].as_str());
        assert(h.subrange(i as int, h.len() as int).len() == 0);
        assert(out@ =~= weave(g, h, *roblox_user, discord_id, discord_name@));
        out
    }
}

impl Clone for Template {
    fn clone(&self) -> (r: Self)
        ensures
            r == *self,
    {
        Template(self.0.clone())
    }
}

impl Default for Template {
    fn default() -> (t: Self)
        ensures
            t.0@ == "{roblox-username}"@,
    {
        let mut s = String::new();
        push_str(&mut s, "{roblox-username}");
        Template(s)
    }
}

/// A template without placeholders (no `{`) gives itself as the nickname.
pub proof fn lemma_render_plain(s: Seq<char>, p: int, user: PartialUser, discord_id: UserId, discord_name: Seq<char>)
    requires
        0 <= p <= s.len(),
        forall|i: int| p <= i < s.len() ==> s[i] != '{',
    ensures
        render(s, p, user, discord_id, discord_name) == s.subrange(p, s.len() as int),
    decreases s.len() - p,
{
    if p < s.len() {
        lemma_render_plain(s, p + 1, user, discord_id, discord_name);
        assert(s.subrange(p, s.len() as int) =~= seq![s[p]] + s.subrange(p + 1, s.len() as int));
    } else {
        assert(s.subrange(p, s.len() as int) =~= Seq::<char>::empty());
    }
}

/// The default template gives the Roblox username.
pub proof fn lemma_render_default(user: PartialUser, discord_id: UserId, discord_name: Seq<char>)
    ensures
        render("{roblox-username}"@, 0, user, discord_id, discord_name) == user.name@,
{
    let s = "{roblox-username}"@;
    reveal_strlit("{roblox-username}");
    assert(s.len() == 17);
    reveal_with_fuel(closing_brace, 18);
    assert(closing_brace(s, 1) == Some(16int));
    assert(s.subrange(1, 16) =~= "roblox-username"@) by {
        reveal_strlit("roblox-username");
    }
    assert(render(s, 17, user, discord_id, discord_name) =~= Seq::<char>::empty());
    assert(render(s, 0, user, discord_id, discord_name) =~= user.name@ + Seq::<char>::empty());
}

/// Where the template text `s` is some text followed by `rest` (which starts at
/// position `k`), the first `}` at or after a position of `rest` is found in
/// `rest` at the same place.
proof fn lemma_closing_brace_shift(s: Seq<char>, k: int, rest: Seq<char>, i: int)
    requires
        0 <= k <= s.len(),
        s.subrange(k, s.len() as int) == rest,
        0 <= i,
    ensures
        closing_brace(s, k + i) == (match closing_brace(rest, i) {
            Some(j) => Some(j + k),
            None => None,
        }),
    decreases rest.len() - i,
{
    if i < rest.len() {
        assert(s[k + i] == rest[i]);
        lemma_closing_brace_shift(s, k, rest, i + 1);
    }
}

/// Rendering a template from a position inside its tail `rest` renders `rest`.
proof fn lemma_render_shift(
    s: Seq<char>,
    k: int,
    rest: Seq<char>,
    i: int,
    user: PartialUser,
    discord_id: UserId,
    discord_name: Seq<char>,
)
    requires
        0 <= k <= s.len(),
        s.subrange(k, s.len() as int) == rest,
        0 <= i,
    ensures
        render(s, k + i, user, discord_id, discord_name) == render(rest, i, user, discord_id, discord_name),
    decreases rest.len() - i,
{
    if i < rest.len() {
        assert(s[k + i] == rest[i]);
        lemma_closing_brace_shift(s, k, rest, i + 1);
        if rest[i] == '{' && closing_brace(rest, i + 1) is Some {
            let j = closing_brace(rest, i + 1)->0;
            lemma_closing_brace(rest, i + 1);
            lemma_render_shift(s, k, rest, j + 1, user, discord_id, discord_name);
            assert(s.subrange(k + i + 1, j + k) =~= rest.subrange(i + 1, j));
            assert(s.subrange(k + i, j + k + 1) =~= rest.subrange(i, j + 1));
        } else {
            lemma_render_shift(s, k, rest, i + 1, user, discord_id, discord_name);
        }
    }
}

/// Inside `{name}`, where `name` holds no `}` and no line break, the placeholder
/// closes at its own `}`.
proof fn lemma_closing_brace_of_name(s: Seq<char>, name: Seq<char>, i: int)
    requires
        s.len() >= name.len() + 2,
        s.subrange(1, name.len() as int + 1) == name,
        s[name.len() as int + 1] == '}',
        forall|k: int| 0 <= k < name.len() ==> name[k] != '}' && name[k] != '\n',
        1 <= i <= name.len() + 1,
    ensures
        closing_brace(s, i) == Some(name.len() as int + 1),
    decreases name.len() + 1 - i,
{
    if i <= name.len() {
        assert(s[i] == name[i - 1]);
        lemma_closing_brace_of_name(s, name, i + 1);
    }
}

/// A template that starts with the placeholder `{name}` (a name without `}` or
/// line break) renders as the placeholder's value followed by the rendering of
/// what comes after it: the Roblox username for `roblox-username`, the Roblox
/// user's id in decimal for `roblox-id`, the Discord user id given in decimal
/// for `discord-id`, the Discord name given for `discord-name`, the Roblox
/// display name (or nothing) for `display-name`, and the placeholder itself as
/// written for any other name.
pub proof fn lemma_render_placeholder(
    name: Seq<char>,
    rest: Seq<char>,
    user: PartialUser,
    discord_id: UserId,
    discord_name: Seq<char>,
)
    requires
        forall|k: int| 0 <= k < name.len() ==> name[k] != '}' && name[k] != '\n',
    ensures
        ({
            let s = seq!['{'] + name + seq!['}'] + rest;
            let whole = seq!['{'] + name + seq!['}'];
            let nick = render(s, 0, user, discord_id, discord_name);
            let tail = render(rest, 0, user, discord_id, discord_name);
            &&& name == "roblox-username"@ ==> nick == user.name@ + tail
            &&& name == "roblox-id"@ ==> nick == decimal(user.id.0 as nat) + tail
            &&& name == "discord-id"@ ==> nick == decimal(discord_id.0 as nat) + tail
            &&& name == "discord-name"@ ==> nick == discord_name + tail
            &&& name == "display-name"@ ==> nick == match user.display_name {
                Some(d) => d@,
                None => Seq::<char>::empty(),
            } + tail
            &&& (name != "roblox-username"@ && name != "roblox-id"@ && name != "discord-id"@ && name
                != "discord-name"@ && name != "display-name"@) ==> nick == whole + tail
        }),
{
    let s = seq!['{'] + name + seq!['}'] + rest;
    let n = name.len() as int;
    assert(s.subrange(1, n + 1) =~= name);
    assert(s[n + 1] == '}');
    assert(s[0] == '{');
    lemma_closing_brace_of_name(s, name, 1);
    assert(s.subrange(n + 2, s.len() as int) =~= rest);
    lemma_render_shift(s, n + 2, rest, 0, user, discord_id, discord_name);
    let whole = seq!['{'] + name + seq!['}'];
    assert(s.subrange(0, n + 2) =~= whole);
    assert(render(s, 0, user, discord_id, discord_name) == placeholder_value(name, whole, user, discord_id, discord_name)
        + render(rest, 0, user, discord_id, discord_name));
    reveal_strlit("roblox-username");
    reveal_strlit("roblox-id");
    reveal_strlit("discord-id");
    reveal_strlit("discord-name");
    reveal_strlit("display-name");
    assert("roblox-username"@.len() == 15);
    assert("roblox-id"@.len() == 9);
    assert("discord-id"@.len() == 10);
    assert("discord-name"@.len() == 12);
    assert("display-name"@.len() == 12);
    assert("discord-name"@[3] != "display-name"@[3]);
}

/// A character that opens no placeholder is copied into the nickname as it is.
pub proof fn lemma_render_copies(c: char, rest: Seq<char>, user: PartialUser, discord_id: UserId, discord_name: Seq<char>)
    requires
        c != '{',
    ensures
        render(seq![c] + rest, 0, user, discord_id, discord_name) == seq![c] + render(
            rest,
            0,
            user,
            discord_id,
            discord_name,
        ),
{
    let s = seq![c] + rest;
    assert(s.subrange(1, s.len() as int) =~= rest);
    lemma_render_shift(s, 1, rest, 0, user, discord_id, discord_name);
}

} // verus!
