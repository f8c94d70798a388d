//! Cross-user context: what the bot remembers about each user, the threads
//! several users share, and who talks with whom.
//!
//! Users are identified by their numeric Discord id.  Times are seconds since
//! the Unix epoch, handed in by the caller.  Maps keyed by user or thread are
//! kept as vectors in insertion order, with every key held once.
use vstd::prelude::*;
use crate::chunking::views;
use crate::commands::search::ChatMessage;
use crate::text::{
    append_part, byte_boundary, byte_prefix, char_is_uppercase, contains_pat, contains_str,
    decimal, decimal_chars, from_chars, join_sep, lemma_join_sep_push, prefix_bytes, push_all,
    push_str, to_chars, utf8_len, utf8_len_of, words, words_of,
};

verus! {

/// What the bot knows about one user.
pub struct UserProfile {
    pub user_id: u64,
    pub username: String,
    pub display_name: Option<String>,
    pub context_summary: String,
    pub interests: Vec<String>,
    pub conversation_style: String,
    pub last_interaction: i64,
    pub total_messages: u64,
    pub preferred_topics: Vec<String>,
}

/// A conversation thread with several participants.
pub struct SharedConversation {
    pub thread_id: String,
    pub participants: Vec<u64>,
    pub messages: Vec<ChatMessage>,
    pub topic: String,
    pub created_at: i64,
    pub last_activity: i64,
    pub is_active: bool,
}

/// Whom a user has mentioned and talked with.
pub struct UserRelationships {
    pub user_id: u64,
    pub mentioned_users: Vec<u64>,
    pub conversation_partners: Vec<u64>,
    pub shared_topics: Vec<String>,
}

/// The most interests (and preferred topics) a profile keeps.
pub const MAX_INTERESTS: usize = 10;

/// The most messages a shared conversation keeps.
pub const MAX_SHARED_MESSAGES: usize = 50;

/// No element occurs twice.
pub open spec fn distinct<T>(s: Seq<T>) -> bool {
    forall|i: int, j: int| 0 <= i < j < s.len() ==> s[i] != s[j]
}

/// The topics that the bot recognises in a message.
pub open spec fn known_topics() -> Seq<Seq<char>> {
    seq![
        "programming"@,
        "rust"@,
        "python"@,
        "javascript"@,
        "ai"@,
        "machine learning"@,
        "gaming"@,
        "music"@,
        "art"@,
        "science"@,
        "technology"@,
        "books"@,
        "movies"@,
        "travel"@,
        "food"@,
        "sports"@,
        "politics"@,
        "philosophy"@,
        "history"@,
        "math"@,
        "physics"@,
        "chemistry"@,
        "biology"@,
        "medicine"@,
        "business"@,
        "finance"@,
        "education"@,
        "environment"@,
        "space"@,
        "robotics"@,
    ]
}

fn known_topic_list() -> (v: Vec<&'static str>)
    ensures
        v@.len() == known_topics().len(),
        forall|k: int| 0 <= k < v@.len() ==> (#[trigger] v@[k])@ == known_topics()[k],
{
    vec![
        "programming",
        "rust",
        "python",
        "javascript",
        "ai",
        "machine learning",
        "gaming",
        "music",
        "art",
        "science",
        "technology",
        "books",
        "movies",
        "travel",
        "food",
        "sports",
        "politics",
        "philosophy",
        "history",
        "math",
        "physics",
        "chemistry",
        "biology",
        "medicine",
        "business",
        "finance",
        "education",
        "environment",
        "space",
        "robotics",
    ]
}

/// The topics of `topics` that occur in `content`, in list order.
pub open spec fn topics_in(content: Seq<char>, topics: Seq<Seq<char>>) -> Seq<Seq<char>>
    decreases topics.len(),
{
    if topics.len() == 0 {
        Seq::empty()
    } else {
        let r = topics_in(content, topics.drop_last());
        if contains_pat(content, topics.last()) {
            r.push(topics.last())
        } else {
            r
        }
    }
}

/// The lowercase form of `s`, as `str::to_lowercase` gives it.
pub uninterp spec fn lowercase(s: Seq<char>) -> Seq<char>;

/// ASCII letters mapped to lowercase, everything else kept.
pub open spec fn ascii_lowercase(s: Seq<char>) -> Seq<char> {
    Seq::new(
        s.len(),
        |i: int|
            if 'A' <= s[i] && s[i] <= 'Z' {
                ((s[i] as u32) + 32) as char
            } else {
                s[i]
            },
    )
}

/// `str::to_lowercase`: the contract names the result and states, as the
/// documentation does, that an ASCII string is lowercased letter by letter.
#[verifier::external_body]
pub(crate) fn to_lowercase(s: &str) -> (r: String)
    ensures
        r@ == lowercase(s@),
        vstd::utf8::is_ascii_chars(s@) ==> r@ == ascii_lowercase(s@),
{
    s.to_lowercase()
}

/// The known topics mentioned in a message, in list order.
pub open spec fn keywords_spec(message: Seq<char>) -> Seq<Seq<char>> {
    topics_in(lowercase(message), known_topics())
}

/// The known topics that occur in a message, matched in lowercase.
pub fn extract_keywords(message: &str) -> (kw: Vec<String>)
    ensures
        views(kw@) == keywords_spec(message@),
{
    let lower = to_lowercase(message);
    let topics = known_topic_list();
    let ghost ts = known_topics();
    let mut kw: Vec<String> = Vec::new();
    let mut i: usize = 0;
    while i < topics.len()
        invariant
            i <= topics@.len(),
            ts == known_topics(),
            topics@.len() == ts.len(),
            forall|k: int| 0 <= k < topics@.len() ==> (#[trigger] topics@[k])@ == ts[k],
            views(kw@) == topics_in(lower@, ts.take(i as int)),
        decreases topics@.len() - i,
    {
        assert(ts.take(i + 1).drop_last() =~= ts.take(i as int));
        assert(ts.take(i + 1).last() == topics@[i as int]@);
        if contains_str(lower.as_str(), topics[i]) {
            let ghost before = views(kw@);
            kw.push(String::from_str(topics[i]));
            assert(views(kw@) =~= before.push(topics@[i as int]@));
        }
        i = i + 1;
    }
    assert(ts.take(topics@.len() as int) =~= ts);
    kw
}

/// `list` with each of `items` appended unless already present.
pub open spec fn merge_new(list: Seq<Seq<char>>, items: Seq<Seq<char>>) -> Seq<Seq<char>>
    decreases items.len(),
{
    if items.len() == 0 {
        list
    } else {
        let r = merge_new(list, items.drop_last());
        if r.contains(items.last()) {
            r
        } else {
            r.push(items.last())
        }
    }
}

/// At most the first `n` elements.
pub open spec fn keep_first<T>(s: Seq<T>, n: nat) -> Seq<T> {
    if s.len() <= n {
        s
    } else {
        s.take(n as int)
    }
}

/// At most the last `n` elements.
pub open spec fn keep_last<T>(s: Seq<T>, n: nat) -> Seq<T> {
    if s.len() <= n {
        s
    } else {
        s.skip(s.len() - n)
    }
}

/// The summary line of a profile.
pub open spec fn summary_spec(
    username: Seq<char>,
    interests: Seq<Seq<char>>,
    total: nat,
    style: Seq<char>,
) -> Seq<char> {
    username + " is interested in "@ + join_sep(interests, ", "@) + ". They have sent "@ + decimal(
        total,
    ) + " messages and prefer "@ + style + " style conversations."@
}

/// A string list that holds every string once and at most `MAX_INTERESTS`.
pub open spec fn topic_list_ok(v: Seq<String>) -> bool {
    v.len() <= MAX_INTERESTS && distinct(views(v))
}

fn string_eq(a: &String, b: &String) -> (r: bool)
    ensures
        r == (a@ == b@),
{
    let x = to_chars(a.as_str());
    let y = to_chars(b.as_str());
    crate::cleaning::eq_chars(x.as_slice(), y.as_slice())
}

fn contains_string(v: &Vec<String>, s: &String) -> (r: bool)
    ensures
        r == views(v@).contains(s@),
{
    let mut i: usize = 0;
    while i < v.len()
        invariant
            i <= v@.len(),
            forall|k: int| 0 <= k < i ==> v@[k]@ != s@,
        decreases v@.len() - i,
    {
        if string_eq(&v[i], s) {
            assert(views(v@)[i as int] == s@);
            return true;
        }
        i = i + 1;
    }
    assert forall|k: int| 0 <= k < views(v@).len() implies views(v@)[k] != s@ by {
        assert(views(v@)[k] == v@[k]@);
    }
    false
}

/// Appends each item that is not yet in the list, then keeps the first
/// `MAX_INTERESTS`.
fn merge_topics(list: &mut Vec<String>, items: &Vec<String>)
    requires
        distinct(views(old(list)@)),
    ensures
        views(final(list)@) == keep_first(
            merge_new(views(old(list)@), views(items@)),
            MAX_INTERESTS as nat,
        ),
        topic_list_ok(final(list)@),
{
    let ghost base = views(list@);
    let ghost its = views(items@);
    let mut i: usize = 0;
    while i < items.len()
        invariant
            i <= items@.len(),
            its == views(items@),
            views(list@) == merge_new(base, its.take(i as int)),
            distinct(views(list@)),
        decreases items@.len() - i,
    {
        assert(its.take(i + 1).drop_last() =~= its.take(i as int));
        assert(its.take(i + 1).last() == items@[i as int]@);
        if !contains_string(list, &items[i]) {
            let ghost before = views(list@);
            let s = items[i].clone();
            list.push(s);
            assert(views(list@) =~= before.push(items@[i as int]@));
        }
        i = i + 1;
    }
    assert(its.take(items@.len() as int) =~= its);
    if list.len() > MAX_INTERESTS {
        list.truncate(MAX_INTERESTS);
        assert(views(list@) =~= merge_new(base, its).take(MAX_INTERESTS as int));
    }
}

/// The recent messages of one user's own conversation with the bot.
pub struct ConversationHistory {
    pub user_id: u64,
    pub messages: Vec<ChatMessage>,
}

/// All the data of cross-user context.
pub struct CrossUserContext {
    user_profiles: Vec<UserProfile>,
    shared_conversations: Vec<SharedConversation>,
    user_relationships: Vec<UserRelationships>,
    conversation_histories: Vec<ConversationHistory>,
}

/// A profile's lists obey their limits.
pub open spec fn profile_ok(p: UserProfile) -> bool {
    topic_list_ok(p.interests@) && topic_list_ok(p.preferred_topics@)
}

/// A conversation keeps at most `MAX_SHARED_MESSAGES` messages and each
/// participant once.
pub open spec fn conversation_ok(c: SharedConversation) -> bool {
    c.messages@.len() <= MAX_SHARED_MESSAGES && distinct(c.participants@)
}

/// Each related user is held once.
pub open spec fn relationships_ok(r: UserRelationships) -> bool {
    distinct(r.mentioned_users@) && distinct(r.conversation_partners@)
}

pub open spec fn profile_ids(ps: Seq<UserProfile>) -> Seq<u64> {
    Seq::new(ps.len(), |i: int| ps[i].user_id)
}

pub open spec fn thread_ids(cs: Seq<SharedConversation>) -> Seq<Seq<char>> {
    Seq::new(cs.len(), |i: int| cs[i].thread_id@)
}

pub open spec fn relationship_ids(rs: Seq<UserRelationships>) -> Seq<u64> {
    Seq::new(rs.len(), |i: int| rs[i].user_id)
}

pub open spec fn history_ids(hs: Seq<ConversationHistory>) -> Seq<u64> {
    Seq::new(hs.len(), |i: int| hs[i].user_id)
}

/// The message as a pair of role and content.
pub open spec fn message_view(m: ChatMessage) -> (Seq<char>, Seq<char>) {
    (m.role@, m.content@)
}

pub open spec fn message_views(ms: Seq<ChatMessage>) -> Seq<(Seq<char>, Seq<char>)> {
    Seq::new(ms.len(), |i: int| message_view(ms[i]))
}

impl ChatMessage {
    /// A copy of the message.
    pub fn duplicate(&self) -> (r: ChatMessage)
        ensures
            message_view(r) == message_view(*self),
    {
        ChatMessage { role: self.role.clone(), content: self.content.clone() }
    }
}

impl CrossUserContext {
    pub closed spec fn profiles(&self) -> Seq<UserProfile> {
        self.user_profiles@
    }

    pub closed spec fn conversations(&self) -> Seq<SharedConversation> {
        self.shared_conversations@
    }

    pub closed spec fn relationships(&self) -> Seq<UserRelationships> {
        self.user_relationships@
    }

    pub closed spec fn histories(&self) -> Seq<ConversationHistory> {
        self.conversation_histories@
    }

    /// Every user and thread is held once, and every record obeys its limits.
    pub open spec fn wf(&self) -> bool {
        &&& distinct(profile_ids(self.profiles()))
        &&& distinct(thread_ids(self.conversations()))
        &&& distinct(relationship_ids(self.relationships()))
        &&& distinct(history_ids(self.histories()))
        &&& forall|i: int| 0 <= i < self.profiles().len() ==> profile_ok(#[trigger] self.profiles()[i])
        &&& forall|i: int|
            0 <= i < self.conversations().len() ==> conversation_ok(#[trigger] self.conversations()[i])
        &&& forall|i: int|
            0 <= i < self.relationships().len() ==> relationships_ok(
                #[trigger] self.relationships()[i],
            )
    }

    /// An empty context.
    pub fn new() -> (c: Self)
        ensures
            c.wf(),
            c.profiles().len() == 0,
            c.conversations().len() == 0,
            c.relationships().len() == 0,
            c.histories().len() == 0,
    {
        CrossUserContext {
            user_profiles: Vec::new(),
            shared_conversations: Vec::new(),
            user_relationships: Vec::new(),
            conversation_histories: Vec::new(),
        }
    }
}

/// The strings joined by `sep`.
fn join_strings(v: &Vec<String>, sep: &str) -> (r: Vec<char>)
    ensures
        r@ == join_sep(views(v@), sep@),
{
    let sep_chars = to_chars(sep);
    let ghost vs = views(v@);
    let mut r: Vec<char> = Vec::new();
    let mut i: usize = 0;
    while i < v.len()
        invariant
            i <= v@.len(),
            vs == views(v@),
            sep_chars@ == sep@,
            r@ == join_sep(vs.take(i as int), sep@),
        decreases v@.len() - i,
    {
        proof {
            lemma_join_sep_push(vs.take(i as int), vs[i as int], sep@);
            assert(vs.take(i + 1) =~= vs.take(i as int).push(vs[i as int]));
        }
        let part = to_chars(v[i].as_str());
        append_part(&mut r, i == 0, part.as_slice(), sep_chars.as_slice());
        i = i + 1;
    }
    assert(vs.take(v@.len() as int) =~= vs);
    r
}

/// Where the profile of `id` stands, if there is one.
pub open spec fn profile_index(ps: Seq<UserProfile>, id: u64) -> Option<int> {
    if exists|i: int| 0 <= i < ps.len() && ps[i].user_id == id {
        Some(choose|i: int| 0 <= i < ps.len() && ps[i].user_id == id)
    } else {
        None
    }
}

/// `q` is profile `p` (or a fresh one, for `None`) after a message from
/// `name` in `style` at time `now`: the count goes up by one, name, style and
/// time are replaced, the message's topics join interests and preferred
/// topics (each list cut to its first ten), and the summary is rewritten.
pub open spec fn profile_after_message(
    p: Option<UserProfile>,
    q: UserProfile,
    id: u64,
    name: Seq<char>,
    message: Seq<char>,
    style: Seq<char>,
    now: i64,
) -> bool {
    let kws = keywords_spec(message);
    let (old_total, old_interests, old_topics, old_display) = match p {
        Some(p) => (p.total_messages as nat, views(p.interests@), views(p.preferred_topics@), p.display_name),
        None => (0nat, Seq::<Seq<char>>::empty(), Seq::<Seq<char>>::empty(), None::<String>),
    };
    &&& q.user_id == id
    &&& q.username@ == name
    &&& q.display_name == old_display
    &&& q.conversation_style@ == style
    &&& q.last_interaction == now
    &&& q.total_messages == old_total + 1
    &&& views(q.interests@) == keep_first(merge_new(old_interests, kws), MAX_INTERESTS as nat)
    &&& views(q.preferred_topics@) == keep_first(merge_new(old_topics, kws), MAX_INTERESTS as nat)
    &&& q.context_summary@ == summary_spec(name, views(q.interests@), q.total_messages as nat, style)
}

impl CrossUserContext {
    fn find_profile(&self, id: u64) -> (r: Option<usize>)
        ensures
            match r {
                Some(i) => i < self.profiles().len() && self.profiles()[i as int].user_id == id,
                None => forall|i: int| 0 <= i < self.profiles().len() ==> self.profiles()[i].user_id != id,
            },
    {
        let mut i: usize = 0;
        while i < self.user_profiles.len()
            invariant
                i <= self.user_profiles@.len(),
                forall|k: int| 0 <= k < i ==> self.user_profiles@[k].user_id != id,
            decreases self.user_profiles@.len() - i,
        {
            if self.user_profiles[i].user_id == id {
                return Some(i);
            }
            i = i + 1;
        }
        None
    }

    /// The profile of a user, if the bot has one.
    pub fn get_user_by_id(&self, user_id: u64) -> (r: Option<&UserProfile>)
        requires
            self.wf(),
        ensures
            match r {
                Some(p) => exists|i: int|
                    0 <= i < self.profiles().len() && self.profiles()[i] == *p && p.user_id == user_id,
                None => profile_index(self.profiles(), user_id) is None,
            },
    {
        match self.find_profile(user_id) {
            Some(i) => Some(&self.user_profiles[i]),
            None => None,
        }
    }

    /// Records a message from a user: creates the profile on first contact,
    /// counts the message, stores name, style and time, adds the message's
    /// topics to interests and preferred topics (ten at most each), and
    /// rewrites the summary.  Other records are unchanged.
    pub fn update_user_profile(
        &mut self,
        user_id: u64,
        username: &str,
        message_content: &str,
        conversation_style: &str,
        now: i64,
    )
        requires
            old(self).wf(),
            forall|i: int|
                0 <= i < old(self).profiles().len() && old(self).profiles()[i].user_id == user_id
                    ==> old(self).profiles()[i].total_messages < u64::MAX,
        ensures
            final(self).wf(),
            final(self).conversations() == old(self).conversations(),
            final(self).relationships() == old(self).relationships(),
            final(self).histories() == old(self).histories(),
            match profile_index(old(self).profiles(), user_id) {
                Some(i) => {
                    &&& final(self).profiles().len() == old(self).profiles().len()
                    &&& forall|j: int|
                        0 <= j < old(self).profiles().len() && j != i ==> final(self).profiles()[j]
                            == old(self).profiles()[j]
                    &&& profile_after_message(
                        Some(old(self).profiles()[i]),
                        final(self).profiles()[i],
                        user_id,
                        username@,
                        message_content@,
                        conversation_style@,
                        now,
                    )
                },
                None => {
                    &&& final(self).profiles().len() == old(self).profiles().len() + 1
                    &&& forall|j: int|
                        0 <= j < old(self).profiles().len() ==> final(self).profiles()[j] == old(self).profiles()[j]
                    &&& profile_after_message(
                        None,
                        final(self).profiles().last(),
                        user_id,
                        username@,
                        message_content@,
                        conversation_style@,
                        now,
                    )
                },
            },
    {
        let keywords = extract_keywords(message_content);
        let found = self.find_profile(user_id);
        let ghost old_ps = self.user_profiles@;
        let mut p = match found {
            Some(i) => self.user_profiles.remove(i),
            None => UserProfile {
                user_id,
                username: String::from_str(username),
                display_name: None,
                context_summary: String::new(),
                interests: Vec::new(),
                conversation_style: String::from_str(conversation_style),
                last_interaction: now,
                total_messages: 0,
                preferred_topics: Vec::new(),
            },
        };
        proof {
            if found is Some {
                assert(profile_ok(old_ps[found->0 as int]));
            }
        }
        p.last_interaction = now;
        p.total_messages = p.total_messages + 1;
        p.username = String::from_str(username);
        p.conversation_style = String::from_str(conversation_style);
        let ghost interests_before = views(p.interests@);
        let ghost topics_before = views(p.preferred_topics@);
        proof {
            match found {
                Some(i) => {
                    assert(interests_before == views(old_ps[i as int].interests@));
                    assert(topics_before == views(old_ps[i as int].preferred_topics@));
                },
                None => {
                    assert(interests_before =~= Seq::<Seq<char>>::empty());
                    assert(topics_before =~= Seq::<Seq<char>>::empty());
                },
            }
        }
        merge_topics(&mut p.interests, &keywords);
        merge_topics(&mut p.preferred_topics, &keywords);
        assert(views(p.interests@) == keep_first(merge_new(interests_before, views(keywords@)), MAX_INTERESTS as nat));
        let mut summary = to_chars(username);
        push_str(&mut summary, " is interested in ");
        let joined = join_strings(&p.interests, ", ");
        push_all(&mut summary, joined.as_slice());
        push_str(&mut summary, ". They have sent ");
        let count = decimal_chars(p.total_messages as u128);
        push_all(&mut summary, count.as_slice());
        push_str(&mut summary, " messages and prefer ");
        push_str(&mut summary, conversation_style);
        push_str(&mut summary, " style conversations.");
        p.context_summary = from_chars(summary.as_slice());
        match found {
            Some(i) => {
                self.user_profiles.insert(i, p);
                proof {
                    assert(profile_index(old_ps, user_id) == Some(i as int)) by {
                        let w = choose|w: int| 0 <= w < old_ps.len() && old_ps[w].user_id == user_id;
                        if w != i {
                            assert(profile_ids(old_ps)[w] == profile_ids(old_ps)[i as int]);
                        }
                    }
                    assert forall|a: int, b: int|
                        0 <= a < b < profile_ids(self.user_profiles@).len() implies profile_ids(
                        self.user_profiles@,
                    )[a] != profile_ids(self.user_profiles@)[b] by {
                        assert(profile_ids(self.user_profiles@)[a] == profile_ids(old_ps)[a]);
                        assert(profile_ids(self.user_profiles@)[b] == profile_ids(old_ps)[b]);
                    }
                }
            },
            None => {
                self.user_profiles.push(p);
                proof {
                    assert(profile_index(old_ps, user_id) is None);
                    assert forall|a: int, b: int|
                        0 <= a < b < profile_ids(self.user_profiles@).len() implies profile_ids(
                        self.user_profiles@,
                    )[a] != profile_ids(self.user_profiles@)[b] by {
                        if b < old_ps.len() {
                            assert(profile_ids(self.user_profiles@)[a] == profile_ids(old_ps)[a]);
                            assert(profile_ids(self.user_profiles@)[b] == profile_ids(old_ps)[b]);
                        } else {
                            assert(profile_ids(self.user_profiles@)[a] == old_ps[a].user_id);
                        }
                    }
                }
            },
        }
        assert forall|i: int| 0 <= i < self.profiles().len() implies profile_ok(
            #[trigger] self.profiles()[i],
        ) by {
            match found {
                Some(k) => {
                    if i != k {
                        assert(self.profiles()[i] == old_ps[i]);
                    }
                },
                None => {
                    if i < old_ps.len() {
                        assert(self.profiles()[i] == old_ps[i]);
                    }
                },
            }
        }
    }
}

/// `set` with each of `items` appended unless already present.
pub open spec fn add_all(set: Seq<u64>, items: Seq<u64>) -> Seq<u64>
    decreases items.len(),
{
    if items.len() == 0 {
        set
    } else {
        let r = add_all(set, items.drop_last());
        if r.contains(items.last()) {
            r
        } else {
            r.push(items.last())
        }
    }
}

/// Adding ids keeps every id once and keeps exactly the old ids and the new.
pub proof fn lemma_add_all(set: Seq<u64>, items: Seq<u64>)
    requires
        distinct(set),
    ensures
        distinct(add_all(set, items)),
        forall|x: u64| #[trigger] add_all(set, items).contains(x) <==> set.contains(x) || items.contains(x),
    decreases items.len(),
{
    if items.len() > 0 {
        lemma_add_all(set, items.drop_last());
        let r = add_all(set, items.drop_last());
        assert forall|x: u64| #[trigger] add_all(set, items).contains(x) <==> set.contains(x) || items.contains(x) by {
            if items.drop_last().contains(x) {
                let k = choose|k: int| 0 <= k < items.drop_last().len() && items.drop_last()[k] == x;
                assert(items[k] == x);
            }
            if items.contains(x) && x != items.last() {
                let k = choose|k: int| 0 <= k < items.len() && items[k] == x;
                assert(items.drop_last()[k] == x);
            }
            if !r.contains(items.last()) {
                if r.push(items.last()).contains(x) && x != items.last() {
                    let k = choose|k: int| 0 <= k < r.push(items.last()).len() && r.push(items.last())[k] == x;
                    assert(r[k] == x);
                }
                if r.contains(x) {
                    let k = choose|k: int| 0 <= k < r.len() && r[k] == x;
                    assert(r.push(items.last())[k] == x);
                }
                assert(r.push(items.last())[r.len() as int] == items.last());
            }
        }
    }
}

/// Adds each id that is not yet present.
fn add_ids(v: &mut Vec<u64>, items: &[u64])
    requires
        distinct(old(v)@),
    ensures
        final(v)@ == add_all(old(v)@, items@),
        distinct(final(v)@),
{
    let ghost base = v@;
    let mut i: usize = 0;
    while i < items.len()
        invariant
            i <= items@.len(),
            v@ == add_all(base, items@.take(i as int)),
            distinct(base),
        decreases items@.len() - i,
    {
        assert(items@.take(i + 1).drop_last() =~= items@.take(i as int));
        let x = items[i];
        let mut found = false;
        let mut k: usize = 0;
        while k < v.len()
            invariant
                k <= v@.len(),
                !found ==> forall|j: int| 0 <= j < k ==> v@[j] != x,
                found ==> v@.contains(x),
            decreases v@.len() - k,
        {
            if v[k] == x {
                found = true;
            }
            k = k + 1;
        }
        if !found {
            v.push(x);
        }
        i = i + 1;
    }
    assert(items@.take(items@.len() as int) =~= items@);
    proof {
        lemma_add_all(base, items@);
    }
}

/// Where the conversation `thread` stands, if there is one.
pub open spec fn conversation_index(cs: Seq<SharedConversation>, thread: Seq<char>) -> Option<int> {
    if exists|i: int| 0 <= i < cs.len() && cs[i].thread_id@ == thread {
        Some(choose|i: int| 0 <= i < cs.len() && cs[i].thread_id@ == thread)
    } else {
        None
    }
}

/// `c` is conversation `p` (or a new one, for `None`) after `message` from
/// `parts`: the message is appended and only the last fifty are kept, the
/// participants gain `parts`, and the activity time becomes `now`; a new
/// conversation starts active, with `topic` and created at `now`.
pub open spec fn conversation_after_message(
    p: Option<SharedConversation>,
    c: SharedConversation,
    thread: Seq<char>,
    parts: Seq<u64>,
    message: ChatMessage,
    topic: Seq<char>,
    now: i64,
) -> bool {
    &&& c.thread_id@ == thread
    &&& c.last_activity == now
    &&& match p {
        Some(p) => {
            &&& c.topic@ == p.topic@
            &&& c.created_at == p.created_at
            &&& c.is_active == p.is_active
            &&& c.participants@ == add_all(p.participants@, parts)
            &&& message_views(c.messages@) == keep_last(
                message_views(p.messages@).push(message_view(message)),
                MAX_SHARED_MESSAGES as nat,
            )
        },
        None => {
            &&& c.topic@ == topic
            &&& c.created_at == now
            &&& c.is_active
            &&& c.participants@ == add_all(add_all(Seq::empty(), parts), parts)
            &&& message_views(c.messages@) == seq![message_view(message)]
        },
    }
}

/// Where the relationships of `id` stand, if there are any.
pub open spec fn relationship_index(rs: Seq<UserRelationships>, id: u64) -> Option<int> {
    if exists|i: int| 0 <= i < rs.len() && rs[i].user_id == id {
        Some(choose|i: int| 0 <= i < rs.len() && rs[i].user_id == id)
    } else {
        None
    }
}

/// `r` is relationship record `p` (or a new one) with the mentioned users
/// and conversation partners added.
pub open spec fn relationships_after(
    p: Option<UserRelationships>,
    r: UserRelationships,
    id: u64,
    mentioned: Seq<u64>,
    partners: Seq<u64>,
) -> bool {
    let (old_mentioned, old_partners) = match p {
        Some(p) => (p.mentioned_users@, p.conversation_partners@),
        None => (Seq::<u64>::empty(), Seq::<u64>::empty()),
    };
    &&& r.user_id == id
    &&& r.mentioned_users@ == add_all(old_mentioned, mentioned)
    &&& r.conversation_partners@ == add_all(old_partners, partners)
    &&& r.shared_topics@.len() == (match p {
        Some(p) => p.shared_topics@.len(),
        None => 0,
    })
}

impl CrossUserContext {
    fn find_conversation(&self, thread: &str) -> (r: Option<usize>)
        ensures
            match r {
                Some(i) => i < self.conversations().len() && self.conversations()[i as int].thread_id@
                    == thread@,
                None => forall|i: int|
                    0 <= i < self.conversations().len() ==> self.conversations()[i].thread_id@
                        != thread@,
            },
    {
        let t = String::from_str(thread);
        let mut i: usize = 0;
        while i < self.shared_conversations.len()
            invariant
                i <= self.shared_conversations@.len(),
                t@ == thread@,
                forall|k: int| 0 <= k < i ==> self.shared_conversations@[k].thread_id@ != thread@,
            decreases self.shared_conversations@.len() - i,
        {
            if string_eq(&self.shared_conversations[i].thread_id, &t) {
                return Some(i);
            }
            i = i + 1;
        }
        None
    }

    /// Appends a message to a shared thread, creating the thread on first
    /// use; the thread keeps its last fifty messages and gains the
    /// participants.  Other records are unchanged.
    pub fn update_shared_conversation(
        &mut self,
        thread_id: &str,
        participants: &[u64],
        message: &ChatMessage,
        topic: &str,
        now: i64,
    )
        requires
            old(self).wf(),
        ensures
            final(self).wf(),
            final(self).profiles() == old(self).profiles(),
            final(self).relationships() == old(self).relationships(),
            final(self).histories() == old(self).histories(),
            match conversation_index(old(self).conversations(), thread_id@) {
                Some(i) => {
                    &&& final(self).conversations().len() == old(self).conversations().len()
                    &&& forall|j: int|
                        0 <= j < old(self).conversations().len() && j != i ==> final(self).conversations()[j] == old(self).conversations()[j]
                    &&& conversation_after_message(
                        Some(old(self).conversations()[i]),
                        final(self).conversations()[i],
                        thread_id@,
                        participants@,
                        *message,
                        topic@,
                        now,
                    )
                },
                None => {
                    &&& final(self).conversations().len() == old(self).conversations().len() + 1
                    &&& forall|j: int|
                        0 <= j < old(self).conversations().len() ==> final(self).conversations()[j]
                            == old(self).conversations()[j]
                    &&& conversation_after_message(
                        None,
                        final(self).conversations().last(),
                        thread_id@,
                        participants@,
                        *message,
                        topic@,
                        now,
                    )
                },
            },
    {
        let found = self.find_conversation(thread_id);
        let ghost old_cs = self.shared_conversations@;
        let mut c = match found {
            Some(i) => self.shared_conversations.remove(i),
            None => {
                let mut initial: Vec<u64> = Vec::new();
                add_ids(&mut initial, participants);
                SharedConversation {
                    thread_id: String::from_str(thread_id),
                    participants: initial,
                    messages: Vec::new(),
                    topic: String::from_str(topic),
                    created_at: now,
                    last_activity: now,
                    is_active: true,
                }
            },
        };
        let ghost before = c;
        proof {
            if found is Some {
                assert(conversation_ok(old_cs[found->0 as int]));
            }
            lemma_add_all(Seq::empty(), participants@);
        }
        c.messages.push(message.duplicate());
        c.last_activity = now;
        add_ids(&mut c.participants, participants);
        if c.messages.len() > MAX_SHARED_MESSAGES {
            c.messages.remove(0);
        }
        assert(message_views(c.messages@) =~= keep_last(
            message_views(before.messages@).push(message_view(*message)),
            MAX_SHARED_MESSAGES as nat,
        ));
        match found {
            Some(i) => {
                self.shared_conversations.insert(i, c);
                proof {
                    assert(conversation_index(old_cs, thread_id@) == Some(i as int)) by {
                        let w = choose|w: int| 0 <= w < old_cs.len() && old_cs[w].thread_id@ == thread_id@;
                        if w != i {
                            assert(thread_ids(old_cs)[w] == thread_ids(old_cs)[i as int]);
                        }
                    }
                    assert forall|a: int, b: int|
                        0 <= a < b < thread_ids(self.shared_conversations@).len() implies thread_ids(
                        self.shared_conversations@,
                    )[a] != thread_ids(self.shared_conversations@)[b] by {
                        assert(thread_ids(self.shared_conversations@)[a] == thread_ids(old_cs)[a]);
                        assert(thread_ids(self.shared_conversations@)[b] == thread_ids(old_cs)[b]);
                    }
                }
            },
            None => {
                assert(message_views(before.messages@) =~= Seq::<(Seq<char>, Seq<char>)>::empty());
                self.shared_conversations.push(c);
                proof {
                    assert(conversation_index(old_cs, thread_id@) is None);
                    assert forall|a: int, b: int|
                        0 <= a < b < thread_ids(self.shared_conversations@).len() implies thread_ids(
                        self.shared_conversations@,
                    )[a] != thread_ids(self.shared_conversations@)[b] by {
                        if b < old_cs.len() {
                            assert(thread_ids(self.shared_conversations@)[a] == thread_ids(old_cs)[a]);
                            assert(thread_ids(self.shared_conversations@)[b] == thread_ids(old_cs)[b]);
                        } else {
                            assert(thread_ids(self.shared_conversations@)[a] == old_cs[a].thread_id@);
                        }
                    }
                }
            },
        }
        assert forall|i: int| 0 <= i < self.conversations().len() implies conversation_ok(
            #[trigger] self.conversations()[i],
        ) by {
            match found {
                Some(k) => {
                    if i != k {
                        assert(self.conversations()[i] == old_cs[i]);
                    }
                },
                None => {
                    if i < old_cs.len() {
                        assert(self.conversations()[i] == old_cs[i]);
                    }
                },
            }
        }
    }

    fn find_relationships(&self, id: u64) -> (r: Option<usize>)
        ensures
            match r {
                Some(i) => i < self.relationships().len() && self.relationships()[i as int].user_id
                    == id,
                None => forall|i: int|
                    0 <= i < self.relationships().len() ==> self.relationships()[i].user_id != id,
            },
    {
        let mut i: usize = 0;
        while i < self.user_relationships.len()
            invariant
                i <= self.user_relationships@.len(),
                forall|k: int| 0 <= k < i ==> self.user_relationships@[k].user_id != id,
            decreases self.user_relationships@.len() - i,
        {
            if self.user_relationships[i].user_id == id {
                return Some(i);
            }
            i = i + 1;
        }
        None
    }

    /// Adds mentioned users and conversation partners to a user's record,
    /// creating the record on first use.  Other records are unchanged.
    pub fn update_user_relationships(
        &mut self,
        user_id: u64,
        mentioned_users: &[u64],
        conversation_partners: &[u64],
    )
        requires
            old(self).wf(),
        ensures
            final(self).wf(),
            final(self).profiles() == old(self).profiles(),
            final(self).conversations() == old(self).conversations(),
            final(self).histories() == old(self).histories(),
            match relationship_index(old(self).relationships(), user_id) {
                Some(i) => {
                    &&& final(self).relationships().len() == old(self).relationships().len()
                    &&& forall|j: int|
                        0 <= j < old(self).relationships().len() && j != i ==> final(self).relationships()[j] == old(self).relationships()[j]
                    &&& relationships_after(
                        Some(old(self).relationships()[i]),
                        final(self).relationships()[i],
                        user_id,
                        mentioned_users@,
                        conversation_partners@,
                    )
                },
                None => {
                    &&& final(self).relationships().len() == old(self).relationships().len() + 1
                    &&& forall|j: int|
                        0 <= j < old(self).relationships().len() ==> final(self).relationships()[j]
                            == old(self).relationships()[j]
                    &&& relationships_after(
                        None,
                        final(self).relationships().last(),
                        user_id,
                        mentioned_users@,
                        conversation_partners@,
                    )
                },
            },
    {
        let found = self.find_relationships(user_id);
        let ghost old_rs = self.user_relationships@;
        let mut r = match found {
            Some(i) => self.user_relationships.remove(i),
            None => UserRelationships {
                user_id,
                mentioned_users: Vec::new(),
                conversation_partners: Vec::new(),
                shared_topics: Vec::new(),
            },
        };
        let ghost before = r;
        proof {
            if found is Some {
                assert(relationships_ok(old_rs[found->0 as int]));
            } else {
                assert(before.mentioned_users@ =~= Seq::<u64>::empty());
                assert(before.conversation_partners@ =~= Seq::<u64>::empty());
            }
        }
        add_ids(&mut r.mentioned_users, mentioned_users);
        add_ids(&mut r.conversation_partners, conversation_partners);
        match found {
            Some(i) => {
                self.user_relationships.insert(i, r);
                proof {
                    assert(relationship_index(old_rs, user_id) == Some(i as int)) by {
                        let w = choose|w: int| 0 <= w < old_rs.len() && old_rs[w].user_id == user_id;
                        if w != i {
                            assert(relationship_ids(old_rs)[w] == relationship_ids(old_rs)[i as int]);
                        }
                    }
                    assert forall|a: int, b: int|
                        0 <= a < b < relationship_ids(self.user_relationships@).len() implies relationship_ids(
                        self.user_relationships@,
                    )[a] != relationship_ids(self.user_relationships@)[b] by {
                        assert(relationship_ids(self.user_relationships@)[a] == relationship_ids(old_rs)[a]);
                        assert(relationship_ids(self.user_relationships@)[b] == relationship_ids(old_rs)[b]);
                    }
                }
            },
            None => {
                self.user_relationships.push(r);
                proof {
                    assert(relationship_index(old_rs, user_id) is None);
                    assert forall|a: int, b: int|
                        0 <= a < b < relationship_ids(self.user_relationships@).len() implies relationship_ids(
                        self.user_relationships@,
                    )[a] != relationship_ids(self.user_relationships@)[b] by {
                        if b < old_rs.len() {
                            assert(relationship_ids(self.user_relationships@)[a] == relationship_ids(old_rs)[a]);
                            assert(relationship_ids(self.user_relationships@)[b] == relationship_ids(old_rs)[b]);
                        } else {
                            assert(relationship_ids(self.user_relationships@)[a] == old_rs[a].user_id);
                        }
                    }
                }
            },
        }
        assert forall|i: int| 0 <= i < self.relationships().len() implies relationships_ok(
            #[trigger] self.relationships()[i],
        ) by {
            match found {
                Some(k) => {
                    if i != k {
                        assert(self.relationships()[i] == old_rs[i]);
                    }
                },
                None => {
                    if i < old_rs.len() {
                        assert(self.relationships()[i] == old_rs[i]);
                    }
                },
            }
        }
    }
}

/// Where the history of `id` stands, if there is one.
pub open spec fn history_index(hs: Seq<ConversationHistory>, id: u64) -> Option<int> {
    if exists|i: int| 0 <= i < hs.len() && hs[i].user_id == id {
        Some(choose|i: int| 0 <= i < hs.len() && hs[i].user_id == id)
    } else {
        None
    }
}

/// With every user held once, the profile found for a user is the one
/// `profile_index` names.
pub proof fn lemma_profile_index(ps: Seq<UserProfile>, id: u64, i: int)
    requires
        distinct(profile_ids(ps)),
        0 <= i < ps.len(),
        ps[i].user_id == id,
    ensures
        profile_index(ps, id) == Some(i),
{
    let j = choose|j: int| 0 <= j < ps.len() && ps[j].user_id == id;
    assert(profile_ids(ps)[i] == id);
    if j != i {
        assert(profile_ids(ps)[j] == id);
    }
}

/// The same for relationship records.
pub proof fn lemma_relationship_index(rs: Seq<UserRelationships>, id: u64, i: int)
    requires
        distinct(relationship_ids(rs)),
        0 <= i < rs.len(),
        rs[i].user_id == id,
    ensures
        relationship_index(rs, id) == Some(i),
{
    let j = choose|j: int| 0 <= j < rs.len() && rs[j].user_id == id;
    assert(relationship_ids(rs)[i] == id);
    if j != i {
        assert(relationship_ids(rs)[j] == id);
    }
}

/// The same for histories.
pub proof fn lemma_history_index(hs: Seq<ConversationHistory>, id: u64, i: int)
    requires
        distinct(history_ids(hs)),
        0 <= i < hs.len(),
        hs[i].user_id == id,
    ensures
        history_index(hs, id) == Some(i),
{
    let j = choose|j: int| 0 <= j < hs.len() && hs[j].user_id == id;
    assert(history_ids(hs)[i] == id);
    if j != i {
        assert(history_ids(hs)[j] == id);
    }
}

/// At most the first hundred bytes of a message, as `&content[..len.min(100)]`
/// cuts it.
pub open spec fn preview(content: Seq<char>) -> Seq<char> {
    if utf8_len(content) <= 100 {
        content
    } else {
        byte_prefix(content, 100)
    }
}

/// The hundredth byte of a long message ends a character, so the cut is
/// possible.
pub open spec fn preview_ok(content: Seq<char>) -> bool {
    utf8_len(content) > 100 ==> byte_boundary(content, 100)
}

pub open spec fn previews_ok(ms: Seq<ChatMessage>) -> bool {
    forall|k: int| 0 <= k < ms.len() ==> preview_ok(#[trigger] ms[k].content@)
}

/// One message in a context listing.
pub open spec fn message_line(indent: Seq<char>, m: ChatMessage) -> Seq<char> {
    indent + "- "@ + m.role@ + ": "@ + preview(m.content@) + "\n"@
}

pub open spec fn message_lines(indent: Seq<char>, ms: Seq<ChatMessage>) -> Seq<char>
    decreases ms.len(),
{
    if ms.len() == 0 {
        Seq::empty()
    } else {
        message_lines(indent, ms.drop_last()) + message_line(indent, ms.last())
    }
}

fn push_preview(out: &mut Vec<char>, content: &str)
    requires
        preview_ok(content@),
    ensures
        final(out)@ == old(out)@ + preview(content@),
{
    let c = to_chars(content);
    if utf8_len_of(c.as_slice()) <= 100 {
        push_all(out, c.as_slice());
    } else {
        let head = prefix_bytes(c.as_slice(), 100);
        push_all(out, head.as_slice());
    }
}

/// Appends the lines of the last `n` messages.
fn push_recent_lines(out: &mut Vec<char>, ms: &Vec<ChatMessage>, n: usize, indent: &str)
    requires
        previews_ok(keep_last(ms@, n as nat)),
    ensures
        final(out)@ == old(out)@ + message_lines(indent@, keep_last(ms@, n as nat)),
{
    let start: usize = if ms.len() <= n {
        0
    } else {
        ms.len() - n
    };
    let ghost recent = keep_last(ms@, n as nat);
    assert(recent =~= ms@.subrange(start as int, ms@.len() as int));
    let ghost base = out@;
    assert(ms@.subrange(start as int, start as int) =~= Seq::<ChatMessage>::empty());
    let mut i: usize = start;
    while i < ms.len()
        invariant
            start <= i <= ms@.len(),
            recent == ms@.subrange(start as int, ms@.len() as int),
            previews_ok(recent),
            out@ == base + message_lines(indent@, ms@.subrange(start as int, i as int)),
        decreases ms@.len() - i,
    {
        assert(ms@.subrange(start as int, i + 1).drop_last() =~= ms@.subrange(start as int, i as int));
        assert(recent[i - start] == ms@[i as int]);
        let ghost before = out@;
        push_str(out, indent);
        push_str(out, "- ");
        push_str(out, ms[i].role.as_str());
        push_str(out, ": ");
        push_preview(out, ms[i].content.as_str());
        push_str(out, "\n");
        assert(out@ =~= before + message_line(indent@, ms@[i as int]));
        i = i + 1;
    }
}

/// The user takes part in the thread and the thread is active.
pub open spec fn in_thread(c: SharedConversation, user: u64) -> bool {
    c.participants@.contains(user) && c.is_active
}

/// A thread's entry in the shared context: its id, topic and last three
/// messages.
pub open spec fn thread_block(c: SharedConversation) -> Seq<char> {
    "**Thread '"@ + c.thread_id@ + "':** "@ + c.topic@ + "\n"@ + message_lines(
        ""@,
        keep_last(c.messages@, 3),
    ) + "\n"@
}

/// The entries of the active threads the user takes part in.
pub open spec fn shared_context_spec(cs: Seq<SharedConversation>, user: u64) -> Seq<char>
    decreases cs.len(),
{
    if cs.len() == 0 {
        Seq::empty()
    } else {
        shared_context_spec(cs.drop_last(), user) + if in_thread(cs.last(), user) {
            thread_block(cs.last())
        } else {
            Seq::empty()
        }
    }
}

/// The messages that the shared context shows can be cut at a hundred bytes.
pub open spec fn shared_previews_ok(cs: Seq<SharedConversation>, user: u64) -> bool {
    forall|i: int|
        0 <= i < cs.len() && in_thread(#[trigger] cs[i], user) ==> previews_ok(
            keep_last(cs[i].messages@, 3),
        )
}

fn has_id(v: &Vec<u64>, id: u64) -> (b: bool)
    ensures
        b == v@.contains(id),
{
    let mut i: usize = 0;
    while i < v.len()
        invariant
            i <= v@.len(),
            forall|k: int| 0 <= k < i ==> v@[k] != id,
        decreases v@.len() - i,
    {
        if v[i] == id {
            return true;
        }
        i = i + 1;
    }
    false
}

/// The current user's summary.
pub open spec fn current_user_part(ps: Seq<UserProfile>, id: u64) -> Seq<char> {
    match profile_index(ps, id) {
        Some(i) => "**Current User Context:** "@ + ps[i].context_summary@ + "\n\n"@,
        None => Seq::empty(),
    }
}

/// One line per mentioned user who has a profile: name and summary.
pub open spec fn mentioned_summaries(ps: Seq<UserProfile>, ids: Seq<u64>) -> Seq<char>
    decreases ids.len(),
{
    if ids.len() == 0 {
        Seq::empty()
    } else {
        mentioned_summaries(ps, ids.drop_last()) + match profile_index(ps, ids.last()) {
            Some(i) => "- "@ + ps[i].username@ + ": "@ + ps[i].context_summary@ + "\n"@,
            None => Seq::empty(),
        }
    }
}

/// One line per conversation partner who has a profile: name and interests.
pub open spec fn partner_lines(ps: Seq<UserProfile>, ids: Seq<u64>) -> Seq<char>
    decreases ids.len(),
{
    if ids.len() == 0 {
        Seq::empty()
    } else {
        partner_lines(ps, ids.drop_last()) + match profile_index(ps, ids.last()) {
            Some(i) => "- Has conversed with "@ + ps[i].username@ + " (interests: "@ + join_sep(
                views(ps[i].interests@),
                ", "@,
            ) + ")\n"@,
            None => Seq::empty(),
        }
    }
}

/// The current user's conversation partners, when there are any.
pub open spec fn relationship_part(ps: Seq<UserProfile>, rs: Seq<UserRelationships>, id: u64) -> Seq<
    char,
> {
    match relationship_index(rs, id) {
        Some(r) => if rs[r].conversation_partners@.len() > 0 {
            "**User Relationships:**\n"@ + partner_lines(ps, rs[r].conversation_partners@) + "\n"@
        } else {
            Seq::empty()
        },
        None => Seq::empty(),
    }
}

/// A mentioned user's recent conversation: the last five messages, or a
/// note that there is none.
pub open spec fn history_part(ps: Seq<UserProfile>, hs: Seq<ConversationHistory>, id: u64) -> Seq<
    char,
> {
    match profile_index(ps, id) {
        Some(i) => "- "@ + ps[i].username@ + ":\n"@ + match history_index(hs, id) {
            Some(h) => message_lines("  "@, keep_last(hs[h].messages@, 5)),
            None => "  No recent conversation history available.\n"@,
        },
        None => Seq::empty(),
    }
}

pub open spec fn history_sections(
    ps: Seq<UserProfile>,
    hs: Seq<ConversationHistory>,
    ids: Seq<u64>,
) -> Seq<char>
    decreases ids.len(),
{
    if ids.len() == 0 {
        Seq::empty()
    } else {
        history_sections(ps, hs, ids.drop_last()) + history_part(ps, hs, ids.last())
    }
}

/// The histories that the context shows can be cut at a hundred bytes.
pub open spec fn history_previews_ok(
    ps: Seq<UserProfile>,
    hs: Seq<ConversationHistory>,
    ids: Seq<u64>,
) -> bool {
    forall|k: int|
        0 <= k < ids.len() && profile_index(ps, #[trigger] ids[k]) is Some && history_index(
            hs,
            ids[k],
        ) is Some ==> previews_ok(keep_last(hs[history_index(hs, ids[k])->0].messages@, 5))
}

/// The cross-user context: the current user's summary, the mentioned users'
/// summaries, the shared threads, the conversation partners, and the mentioned
/// users' recent conversations, each part present only when it has content.
pub open spec fn cross_user_context_spec(
    ps: Seq<UserProfile>,
    cs: Seq<SharedConversation>,
    rs: Seq<UserRelationships>,
    hs: Seq<ConversationHistory>,
    current: u64,
    mentioned: Seq<u64>,
) -> Seq<char> {
    current_user_part(ps, current) + mentioned_part(ps, mentioned) + shared_part(cs, current)
        + relationship_part(ps, rs, current) + recent_part(ps, hs, mentioned)
}

/// The mentioned users' summaries, when users are mentioned.
pub open spec fn mentioned_part(ps: Seq<UserProfile>, mentioned: Seq<u64>) -> Seq<char> {
    if mentioned.len() == 0 {
        Seq::empty()
    } else {
        "**Mentioned Users Context:**\n"@ + mentioned_summaries(ps, mentioned) + "\n"@
    }
}

/// The shared threads, when there are any.
pub open spec fn shared_part(cs: Seq<SharedConversation>, current: u64) -> Seq<char> {
    let shared = shared_context_spec(cs, current);
    if shared.len() == 0 {
        Seq::empty()
    } else {
        "**Shared Conversation Context:**\n"@ + shared + "\n\n"@
    }
}

/// The mentioned users' recent conversations, when users are mentioned.
pub open spec fn recent_part(ps: Seq<UserProfile>, hs: Seq<ConversationHistory>, mentioned: Seq<u64>) -> Seq<char> {
    if mentioned.len() == 0 {
        Seq::empty()
    } else {
        "**Mentioned Users' Recent Conversations:**\n"@ + history_sections(ps, hs, mentioned)
            + "\n"@
    }
}

/// The profile matches a name: exactly, ignoring case, by user name or
/// display name; or, when not `exact`, by containing it.
pub open spec fn name_match(p: UserProfile, q: Seq<char>, exact: bool) -> bool {
    if exact {
        lowercase(p.username@) == lowercase(q) || (p.display_name matches Some(d) && lowercase(d@)
            == lowercase(q))
    } else {
        contains_pat(lowercase(p.username@), lowercase(q)) || (p.display_name matches Some(d)
            && contains_pat(lowercase(d@), lowercase(q)))
    }
}

/// Profile `i` is the first to match.
pub open spec fn first_named(ps: Seq<UserProfile>, q: Seq<char>, exact: bool, i: int) -> bool {
    0 <= i < ps.len() && name_match(ps[i], q, exact) && forall|j: int|
        0 <= j < i ==> !name_match(#[trigger] ps[j], q, exact)
}

/// The profile a name refers to: the first exact match, else the first
/// partial match.
pub open spec fn user_by_name_index(ps: Seq<UserProfile>, q: Seq<char>) -> Option<int> {
    if exists|i: int| first_named(ps, q, true, i) {
        Some(choose|i: int| first_named(ps, q, true, i))
    } else if exists|i: int| first_named(ps, q, false, i) {
        Some(choose|i: int| first_named(ps, q, false, i))
    } else {
        None
    }
}

/// There is at most one first match.
pub proof fn lemma_first_named_unique(ps: Seq<UserProfile>, q: Seq<char>, exact: bool, i: int, j: int)
    requires
        first_named(ps, q, exact, i),
        first_named(ps, q, exact, j),
    ensures
        i == j,
{
    if i < j {
        assert(!name_match(ps[i], q, exact));
    }
    if j < i {
        assert(!name_match(ps[j], q, exact));
    }
}

/// The users a message names: each whitespace-separated word that starts
/// with an uppercase letter and names a profile, in order.
pub open spec fn mentions_in(ps: Seq<UserProfile>, ws: Seq<Seq<char>>) -> Seq<u64>
    decreases ws.len(),
{
    if ws.len() == 0 {
        Seq::empty()
    } else {
        let r = mentions_in(ps, ws.drop_last());
        let w = ws.last();
        if w.len() > 0 && char_is_uppercase(w[0]) && user_by_name_index(ps, w) is Some {
            r.push(ps[user_by_name_index(ps, w)->0].user_id)
        } else {
            r
        }
    }
}

impl CrossUserContext {
    fn find_history(&self, id: u64) -> (r: Option<usize>)
        ensures
            match r {
                Some(i) => i < self.histories().len() && self.histories()[i as int].user_id == id,
                None => forall|i: int| 0 <= i < self.histories().len() ==> self.histories()[i].user_id != id,
            },
    {
        let mut i: usize = 0;
        while i < self.conversation_histories.len()
            invariant
                i <= self.conversation_histories@.len(),
                forall|k: int| 0 <= k < i ==> self.conversation_histories@[k].user_id != id,
            decreases self.conversation_histories@.len() - i,
        {
            if self.conversation_histories[i].user_id == id {
                return Some(i);
            }
            i = i + 1;
        }
        None
    }

    /// Stores a user's recent conversation with the bot, replacing the one
    /// held before.  Other records are unchanged.
    pub fn set_conversation_history(&mut self, user_id: u64, messages: Vec<ChatMessage>)
        requires
            old(self).wf(),
        ensures
            final(self).wf(),
            final(self).profiles() == old(self).profiles(),
            final(self).conversations() == old(self).conversations(),
            final(self).relationships() == old(self).relationships(),
            match history_index(old(self).histories(), user_id) {
                Some(i) => final(self).histories() == old(self).histories().update(
                    i,
                    ConversationHistory { user_id, messages },
                ),
                None => final(self).histories() == old(self).histories().push(
                    ConversationHistory { user_id, messages },
                ),
            },
    {
        let ghost hs = self.histories();
        match self.find_history(user_id) {
            Some(i) => {
                proof {
                    lemma_history_index(hs, user_id, i as int);
                }
                self.conversation_histories.set(i, ConversationHistory { user_id, messages });
                assert(history_ids(self.histories()) =~= history_ids(hs));
            },
            None => {
                self.conversation_histories.push(ConversationHistory { user_id, messages });
                assert(history_ids(self.histories()) =~= history_ids(hs).push(user_id));
                assert forall|a: int, b: int|
                    0 <= a < b < history_ids(self.histories()).len() implies history_ids(
                    self.histories(),
                )[a] != history_ids(self.histories())[b] by {
                    if b == hs.len() {
                        assert(hs[a].user_id != user_id);
                    } else {
                        assert(history_ids(hs)[a] != history_ids(hs)[b]);
                    }
                }
            },
        }
    }

    /// The entries of the active shared threads the user takes part in, in
    /// the order the threads were created, each with its last three messages.
    pub fn get_shared_conversation_context(
        &self,
        user_id: u64,
        conversation_history: &[ChatMessage],
    ) -> (r: String)
        requires
            shared_previews_ok(self.conversations(), user_id),
        ensures
            r@ == shared_context_spec(self.conversations(), user_id),
    {
        let ghost cs = self.conversations();
        let mut out: Vec<char> = Vec::new();
        let mut i: usize = 0;
        assert(cs.take(0) =~= Seq::<SharedConversation>::empty());
        while i < self.shared_conversations.len()
            invariant
                i <= cs.len(),
                cs == self.conversations(),
                shared_previews_ok(cs, user_id),
                out@ == shared_context_spec(cs.take(i as int), user_id),
            decreases cs.len() - i,
        {
            assert(cs.take(i + 1).drop_last() =~= cs.take(i as int));
            assert(cs.take(i + 1).last() == cs[i as int]);
            let c = &self.shared_conversations[i];
            if has_id(&c.participants, user_id) && c.is_active {
                assert(in_thread(cs[i as int], user_id));
                let ghost before = out@;
                push_str(&mut out, "**Thread '");
                push_str(&mut out, c.thread_id.as_str());
                push_str(&mut out, "':** ");
                push_str(&mut out, c.topic.as_str());
                push_str(&mut out, "\n");
                push_recent_lines(&mut out, &c.messages, 3, "");
                push_str(&mut out, "\n");
                assert(out@ =~= before + thread_block(cs[i as int]));
            } else {
                assert(out@ =~= out@ + Seq::<char>::empty());
            }
            i = i + 1;
        }
        assert(cs.take(cs.len() as int) =~= cs);
        from_chars(out.as_slice())
    }

    fn push_mentioned_summaries(&self, out: &mut Vec<char>, ids: &[u64])
        requires
            self.wf(),
        ensures
            final(out)@ == old(out)@ + mentioned_summaries(self.profiles(), ids@),
    {
        let ghost ps = self.profiles();
        let ghost base = out@;
        let mut k: usize = 0;
        assert(ids@.take(0) =~= Seq::<u64>::empty());
        while k < ids.len()
            invariant
                k <= ids@.len(),
                self.wf(),
                ps == self.profiles(),
                out@ == base + mentioned_summaries(ps, ids@.take(k as int)),
            decreases ids@.len() - k,
        {
            assert(ids@.take(k + 1).drop_last() =~= ids@.take(k as int));
            assert(ids@.take(k + 1).last() == ids@[k as int]);
            let ghost before = out@;
            match self.find_profile(ids[k]) {
                Some(i) => {
                    proof {
                        lemma_profile_index(ps, ids@[k as int], i as int);
                    }
                    let p = &self.user_profiles[i];
                    push_str(out, "- ");
                    push_str(out, p.username.as_str());
                    push_str(out, ": ");
                    push_str(out, p.context_summary.as_str());
                    push_str(out, "\n");
                },
                None => {},
            }
            assert(out@ =~= base + mentioned_summaries(ps, ids@.take(k + 1)));
            k = k + 1;
        }
        assert(ids@.take(ids@.len() as int) =~= ids@);
    }

    fn push_partner_lines(&self, out: &mut Vec<char>, ids: &Vec<u64>)
        requires
            self.wf(),
        ensures
            final(out)@ == old(out)@ + partner_lines(self.profiles(), ids@),
    {
        let ghost ps = self.profiles();
        let ghost base = out@;
        let mut k: usize = 0;
        assert(ids@.take(0) =~= Seq::<u64>::empty());
        while k < ids.len()
            invariant
                k <= ids@.len(),
                self.wf(),
                ps == self.profiles(),
                out@ == base + partner_lines(ps, ids@.take(k as int)),
            decreases ids@.len() - k,
        {
            assert(ids@.take(k + 1).drop_last() =~= ids@.take(k as int));
            assert(ids@.take(k + 1).last() == ids@[k as int]);
            match self.find_profile(ids[k]) {
                Some(i) => {
                    proof {
                        lemma_profile_index(ps, ids@[k as int], i as int);
                    }
                    let p = &self.user_profiles[i];
                    push_str(out, "- Has conversed with ");
                    push_str(out, p.username.as_str());
                    push_str(out, " (interests: ");
                    let j = join_strings(&p.interests, ", ");
                    push_all(out, j.as_slice());
                    push_str(out, ")\n");
                },
                None => {},
            }
            assert(out@ =~= base + partner_lines(ps, ids@.take(k + 1)));
            k = k + 1;
        }
        assert(ids@.take(ids@.len() as int) =~= ids@);
    }

    fn push_history_sections(&self, out: &mut Vec<char>, ids: &[u64])
        requires
            self.wf(),
            history_previews_ok(self.profiles(), self.histories(), ids@),
        ensures
            final(out)@ == old(out)@ + history_sections(self.profiles(), self.histories(), ids@),
    {
        let ghost ps = self.profiles();
        let ghost hs = self.histories();
        let ghost base = out@;
        let mut k: usize = 0;
        assert(ids@.take(0) =~= Seq::<u64>::empty());
        while k < ids.len()
            invariant
                k <= ids@.len(),
                self.wf(),
                ps == self.profiles(),
                hs == self.histories(),
                history_previews_ok(ps, hs, ids@),
                out@ == base + history_sections(ps, hs, ids@.take(k as int)),
            decreases ids@.len() - k,
        {
            assert(ids@.take(k + 1).drop_last() =~= ids@.take(k as int));
            assert(ids@.take(k + 1).last() == ids@[k as int]);
            let ghost before = out@;
            match self.find_profile(ids[k]) {
                Some(i) => {
                    proof {
                        lemma_profile_index(ps, ids@[k as int], i as int);
                    }
                    push_str(out, "- ");
                    push_str(out, self.user_profiles[i].username.as_str());
                    push_str(out, ":\n");
                    match self.find_history(ids[k]) {
                        Some(h) => {
                            proof {
                                lemma_history_index(hs, ids@[k as int], h as int);
                            }
                            push_recent_lines(out, &self.conversation_histories[h].messages, 5, "  ");
                        },
                        None => {
                            push_str(out, "  No recent conversation history available.\n");
                        },
                    }
                    assert(out@ =~= before + history_part(ps, hs, ids@[k as int]));
                },
                None => {
                    assert(out@ =~= before + history_part(ps, hs, ids@[k as int]));
                },
            }
            k = k + 1;
        }
        assert(ids@.take(ids@.len() as int) =~= ids@);
    }

    /// The profile a name refers to, ignoring case: the first whose user name
    /// or display name equals it, else the first whose user name or display
    /// name contains it.
    pub fn get_user_by_name(&self, username: &str) -> (r: Option<&UserProfile>)
        ensures
            match r {
                Some(p) => user_by_name_index(self.profiles(), username@) is Some && *p
                    == self.profiles()[user_by_name_index(self.profiles(), username@)->0],
                None => user_by_name_index(self.profiles(), username@) is None,
            },
    {
        let ghost ps = self.profiles();
        let ghost q = username@;
        let wanted = to_lowercase(username);
        let mut i: usize = 0;
        while i < self.user_profiles.len()
            invariant
                i <= ps.len(),
                ps == self.profiles(),
                q == username@,
                wanted@ == lowercase(q),
                forall|j: int| 0 <= j < i ==> !name_match(#[trigger] ps[j], q, true),
            decreases ps.len() - i,
        {
            let p = &self.user_profiles[i];
            let u = to_lowercase(p.username.as_str());
            let mut hit = crate::config::same_text(&u, &wanted);
            if !hit {
                match &p.display_name {
                    Some(d) => {
                        let dl = to_lowercase(d.as_str());
                        hit = crate::config::same_text(&dl, &wanted);
                    },
                    None => {},
                }
            }
            assert(hit == name_match(ps[i as int], q, true));
            if hit {
                proof {
                    assert(first_named(ps, q, true, i as int));
                    let c = choose|c: int| first_named(ps, q, true, c);
                    lemma_first_named_unique(ps, q, true, c, i as int);
                    assert(user_by_name_index(ps, q) == Some(i as int));
                }
                return Some(p);
            }
            i = i + 1;
        }
        assert(!exists|c: int| first_named(ps, q, true, c));
        let mut i: usize = 0;
        while i < self.user_profiles.len()
            invariant
                i <= ps.len(),
                ps == self.profiles(),
                q == username@,
                wanted@ == lowercase(q),
                !exists|c: int| first_named(ps, q, true, c),
                forall|j: int| 0 <= j < i ==> !name_match(#[trigger] ps[j], q, false),
            decreases ps.len() - i,
        {
            let p = &self.user_profiles[i];
            let u = to_lowercase(p.username.as_str());
            let mut hit = contains_str(u.as_str(), wanted.as_str());
            if !hit {
                match &p.display_name {
                    Some(d) => {
                        let dl = to_lowercase(d.as_str());
                        hit = contains_str(dl.as_str(), wanted.as_str());
                    },
                    None => {},
                }
            }
            assert(hit == name_match(ps[i as int], q, false));
            if hit {
                proof {
                    assert(first_named(ps, q, false, i as int));
                    let c = choose|c: int| first_named(ps, q, false, c);
                    lemma_first_named_unique(ps, q, false, c, i as int);
                    assert(user_by_name_index(ps, q) == Some(i as int));
                }
                return Some(p);
            }
            i = i + 1;
        }
        assert(!exists|c: int| first_named(ps, q, false, c));
        None
    }

    /// The users a message names: each word that starts with an uppercase
    /// letter and refers to a profile, as `get_user_by_name` finds it.
    pub fn extract_mentioned_users(&self, content: &str) -> (r: Vec<u64>)
        ensures
            r@ == mentions_in(self.profiles(), words(content@)),
    {
        let ghost ps = self.profiles();
        let chars = to_chars(content);
        let ws = words_of(chars.as_slice());
        let ghost all = words(content@);
        let mut r: Vec<u64> = Vec::new();
        let mut k: usize = 0;
        assert(all.take(0) =~= Seq::<Seq<char>>::empty());
        while k < ws.len()
            invariant
                k <= ws@.len(),
                ws@.len() == all.len(),
                forall|j: int| 0 <= j < ws@.len() ==> (#[trigger] ws@[j])@ == all[j],
                ps == self.profiles(),
                r@ == mentions_in(ps, all.take(k as int)),
            decreases ws@.len() - k,
        {
            assert(all.take(k + 1).drop_last() =~= all.take(k as int));
            assert(all.take(k + 1).last() == ws@[k as int]@);
            let w = &ws[k];
            if w.len() > 0 && w[0].is_uppercase() {
                let name = from_chars(w.as_slice());
                match self.get_user_by_name(name.as_str()) {
                    Some(p) => {
                        r.push(p.user_id);
                    },
                    None => {},
                }
            }
            k = k + 1;
        }
        assert(all.take(all.len() as int) =~= all);
        r
    }

    /// The partners a user has talked with recently; none are found from the
    /// messages, so the list is empty.
    pub fn get_conversation_partners(&self, user_id: u64, recent_messages: &[ChatMessage]) -> (r: Vec<u64>)
        ensures
            r@.len() == 0,
    {
        Vec::new()
    }

    fn current_part_chars(&self, id: u64) -> (out: Vec<char>)
        requires
            self.wf(),
        ensures
            out@ == current_user_part(self.profiles(), id),
    {
        let mut out: Vec<char> = Vec::new();
        match self.find_profile(id) {
            Some(i) => {
                proof {
                    lemma_profile_index(self.profiles(), id, i as int);
                }
                push_str(&mut out, "**Current User Context:** ");
                push_str(&mut out, self.user_profiles[i].context_summary.as_str());
                push_str(&mut out, "\n\n");
            },
            None => {},
        }
        assert(out@ =~= current_user_part(self.profiles(), id));
        out
    }

    fn mentioned_part_chars(&self, ids: &[u64]) -> (out: Vec<char>)
        requires
            self.wf(),
        ensures
            out@ == mentioned_part(self.profiles(), ids@),
    {
        let mut out: Vec<char> = Vec::new();
        if ids.len() > 0 {
            push_str(&mut out, "**Mentioned Users Context:**\n");
            self.push_mentioned_summaries(&mut out, ids);
            push_str(&mut out, "\n");
        }
        assert(out@ =~= mentioned_part(self.profiles(), ids@));
        out
    }

    fn shared_part_chars(&self, id: u64, history: &[ChatMessage]) -> (out: Vec<char>)
        requires
            shared_previews_ok(self.conversations(), id),
        ensures
            out@ == shared_part(self.conversations(), id),
    {
        let mut out: Vec<char> = Vec::new();
        let shared = self.get_shared_conversation_context(id, history);
        if !shared.as_str().is_empty() {
            push_str(&mut out, "**Shared Conversation Context:**\n");
            push_str(&mut out, shared.as_str());
            push_str(&mut out, "\n\n");
        }
        assert(out@ =~= shared_part(self.conversations(), id));
        out
    }

    fn relationship_part_chars(&self, id: u64) -> (out: Vec<char>)
        requires
            self.wf(),
        ensures
            out@ == relationship_part(self.profiles(), self.relationships(), id),
    {
        let mut out: Vec<char> = Vec::new();
        match self.find_relationships(id) {
            Some(r) => {
                proof {
                    lemma_relationship_index(self.relationships(), id, r as int);
                }
                let partners = &self.user_relationships[r].conversation_partners;
                if partners.len() > 0 {
                    push_str(&mut out, "**User Relationships:**\n");
                    self.push_partner_lines(&mut out, partners);
                    push_str(&mut out, "\n");
                }
            },
            None => {},
        }
        assert(out@ =~= relationship_part(self.profiles(), self.relationships(), id));
        out
    }

    fn recent_part_chars(&self, ids: &[u64]) -> (out: Vec<char>)
        requires
            self.wf(),
            history_previews_ok(self.profiles(), self.histories(), ids@),
        ensures
            out@ == recent_part(self.profiles(), self.histories(), ids@),
    {
        let mut out: Vec<char> = Vec::new();
        if ids.len() > 0 {
            push_str(&mut out, "**Mentioned Users' Recent Conversations:**\n");
            self.push_history_sections(&mut out, ids);
            push_str(&mut out, "\n");
        }
        assert(out@ =~= recent_part(self.profiles(), self.histories(), ids@));
        out
    }

    /// The context about other users that goes into the system prompt.
    pub fn generate_cross_user_context(
        &self,
        current_user_id: u64,
        mentioned_users: &[u64],
        conversation_history: &[ChatMessage],
    ) -> (r: String)
        requires
            self.wf(),
            shared_previews_ok(self.conversations(), current_user_id),
            history_previews_ok(self.profiles(), self.histories(), mentioned_users@),
        ensures
            r@ == cross_user_context_spec(
                self.profiles(),
                self.conversations(),
                self.relationships(),
                self.histories(),
                current_user_id,
                mentioned_users@,
            ),
    {
        let mut out = self.current_part_chars(current_user_id);
        let b = self.mentioned_part_chars(mentioned_users);
        push_all(&mut out, b.as_slice());
        let c = self.shared_part_chars(current_user_id, conversation_history);
        push_all(&mut out, c.as_slice());
        let d = self.relationship_part_chars(current_user_id);
        push_all(&mut out, d.as_slice());
        let e = self.recent_part_chars(mentioned_users);
        push_all(&mut out, e.as_slice());
        from_chars(out.as_slice())
    }
}

/// The system prompt with cross-user context appended, or the base prompt
/// alone when there is no context.
pub open spec fn enhanced_prompt_spec(base: Seq<char>, context: Seq<char>) -> Seq<char> {
    if context.len() == 0 {
        base
    } else {
        base + "\n\n**Cross-User Context Information:**\n"@ + context
            + "\n\nUse this context to provide more personalized and contextually aware responses. Reference users by name when appropriate and acknowledge shared conversation history."@
    }
}

/// Appends cross-user context to a system prompt.
pub fn generate_enhanced_system_prompt(base_prompt: &str, cross_user_context: &str) -> (p: String)
    ensures
        p@ == enhanced_prompt_spec(base_prompt@, cross_user_context@),
{
    if cross_user_context.is_empty() {
        String::from_str(base_prompt)
    } else {
        let mut out = to_chars(base_prompt);
        push_str(&mut out, "\n\n**Cross-User Context Information:**\n");
        push_str(&mut out, cross_user_context);
        push_str(
            &mut out,
            "\n\nUse this context to provide more personalized and contextually aware responses. Reference users by name when appropriate and acknowledge shared conversation history.",
        );
        from_chars(out.as_slice())
    }
}

/// Merging topics keeps the list first and in order, keeps every topic once,
/// and holds exactly the old topics and the merged ones.
pub proof fn lemma_merge_new(list: Seq<Seq<char>>, items: Seq<Seq<char>>)
    requires
        distinct(list),
    ensures
        distinct(merge_new(list, items)),
        list.len() <= merge_new(list, items).len(),
        merge_new(list, items).take(list.len() as int) == list,
        forall|t: Seq<char>| #[trigger] merge_new(list, items).contains(t) <==> list.contains(t)
            || items.contains(t),
    decreases items.len(),
{
    if items.len() > 0 {
        let front = items.drop_last();
        lemma_merge_new(list, front);
        let r = merge_new(list, front);
        let x = items.last();
        if !r.contains(x) {
            assert(r.push(x).take(list.len() as int) =~= r.take(list.len() as int));
        }
        assert forall|t: Seq<char>| #[trigger] merge_new(list, items).contains(t) <==> list.contains(t)
            || items.contains(t) by {
            if front.contains(t) {
                let k = choose|k: int| 0 <= k < front.len() && front[k] == t;
                assert(items[k] == t);
            }
            if items.contains(t) && t != x {
                let k = choose|k: int| 0 <= k < items.len() && items[k] == t;
                assert(front[k] == t);
            }
            if !r.contains(x) {
                if r.push(x).contains(t) && t != x {
                    let k = choose|k: int| 0 <= k < r.push(x).len() && r.push(x)[k] == t;
                    assert(r[k] == t);
                }
                if r.contains(t) {
                    let k = choose|k: int| 0 <= k < r.len() && r[k] == t;
                    assert(r.push(x)[k] == t);
                }
                assert(r.push(x)[r.len() as int] == x);
            }
        }
    }
}

/// A message keeps a profile within its limits: the count goes up by one,
/// the interests (and preferred topics) hold each topic once and at most ten,
/// the old interests stay first and in order, and every interest is an old
/// one or a topic of the message.
pub proof fn lemma_profile_update_law(
    p: Option<UserProfile>,
    q: UserProfile,
    id: u64,
    name: Seq<char>,
    message: Seq<char>,
    style: Seq<char>,
    now: i64,
)
    requires
        p matches Some(old) ==> profile_ok(old),
        profile_after_message(p, q, id, name, message, style, now),
    ensures
        profile_ok(q),
        q.total_messages == (match p {
            Some(old) => old.total_messages + 1,
            None => 1,
        }),
        match p {
            Some(old) => views(q.interests@).take(views(old.interests@).len() as int) == views(old.interests@)
                && views(q.preferred_topics@).take(views(old.preferred_topics@).len() as int) == views(old.preferred_topics@),
            None => true,
        },
        forall|t: Seq<char>|
            #[trigger] views(q.interests@).contains(t) ==> keywords_spec(message).contains(t) || (
            match p {
                Some(old) => views(old.interests@).contains(t),
                None => false,
            }),
{
    let kws = keywords_spec(message);
    let (oi, ot) = match p {
        Some(old) => (views(old.interests@), views(old.preferred_topics@)),
        None => (Seq::<Seq<char>>::empty(), Seq::<Seq<char>>::empty()),
    };
    lemma_merge_new(oi, kws);
    lemma_merge_new(ot, kws);
    let mi = merge_new(oi, kws);
    let mt = merge_new(ot, kws);
    let n = MAX_INTERESTS as nat;
    assert(views(q.interests@).len() == q.interests@.len());
    assert(views(q.preferred_topics@).len() == q.preferred_topics@.len());
    assert(distinct(keep_first(mi, n))) by {
        if mi.len() > n {
            assert forall|a: int, b: int| 0 <= a < b < keep_first(mi, n).len() implies keep_first(mi, n)[a] != keep_first(mi, n)[b] by {
                assert(mi[a] != mi[b]);
            }
        }
    }
    assert(distinct(keep_first(mt, n))) by {
        if mt.len() > n {
            assert forall|a: int, b: int| 0 <= a < b < keep_first(mt, n).len() implies keep_first(mt, n)[a] != keep_first(mt, n)[b] by {
                assert(mt[a] != mt[b]);
            }
        }
    }
    if p is Some {
        assert(oi.len() <= n && ot.len() <= n);
        assert(keep_first(mi, n).take(oi.len() as int) =~= mi.take(oi.len() as int));
        assert(keep_first(mt, n).take(ot.len() as int) =~= mt.take(ot.len() as int));
    }
    assert forall|t: Seq<char>| #[trigger] views(q.interests@).contains(t) implies kws.contains(t)
        || oi.contains(t) by {
        let k = choose|k: int| 0 <= k < views(q.interests@).len() && views(q.interests@)[k] == t;
        assert(mi[k] == t);
        assert(mi.contains(t));
    }
}

/// A message keeps a shared thread within its limits: it holds at most fifty
/// messages and ends with the new one, every old participant and every named
/// one takes part (each once), and a thread that existed keeps its topic.
pub proof fn lemma_conversation_update_law(
    p: Option<SharedConversation>,
    c: SharedConversation,
    thread: Seq<char>,
    parts: Seq<u64>,
    message: ChatMessage,
    topic: Seq<char>,
    now: i64,
)
    requires
        p matches Some(old) ==> conversation_ok(old),
        conversation_after_message(p, c, thread, parts, message, topic, now),
    ensures
        conversation_ok(c),
        c.messages@.len() > 0,
        message_views(c.messages@).last() == message_view(message),
        forall|x: u64| #[trigger] parts.contains(x) ==> c.participants@.contains(x),
        match p {
            Some(old) => c.topic@ == old.topic@ && forall|x: u64|
                #[trigger] old.participants@.contains(x) ==> c.participants@.contains(x),
            None => c.topic@ == topic,
        },
{
    let mv = message_views(c.messages@);
    assert(mv.len() == c.messages@.len());
    match p {
        Some(old) => {
            lemma_add_all(old.participants@, parts);
            let all = message_views(old.messages@).push(message_view(message));
            let n = MAX_SHARED_MESSAGES as nat;
            if all.len() > n {
                assert(keep_last(all, n).last() == all.last());
            }
        },
        None => {
            assert(distinct(Seq::<u64>::empty()));
            lemma_add_all(Seq::empty(), parts);
            lemma_add_all(add_all(Seq::empty(), parts), parts);
        },
    }
}

} // verus!
