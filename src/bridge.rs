use vstd::prelude::*;

verus! {

/// The wallet client the facade hands out. It holds no state of its own: the
/// wallets live in the process-wide registry.
#[derive(Debug)]
pub struct CdkWallet {}

impl CdkWallet {
    /// A new client.
    pub fn new() -> (r: Self) {
        CdkWallet {  }
    }
}

/// Directory paths of the messaging core's configuration, as text.
#[derive(Debug, Clone)]
pub struct WhitenoiseConfigData {
    /// Where application data is stored.
    pub data_dir: String,
    /// Where log files are written.
    pub logs_dir: String,
}

/// A message with its content split into tokens, in plain fields.
#[derive(Debug, Clone)]
pub struct MessageWithTokensData {
    pub id: String,
    pub pubkey: String,
    pub kind: u16,
    pub created_at: u64,
    pub content: Option<String>,
    pub tokens: Vec<String>,
}

/// An aggregated chat message, in plain fields.
#[derive(Debug, Clone)]
pub struct ChatMessageData {
    pub id: String,
    pub pubkey: String,
    pub content: String,
    pub created_at: u64,
    pub tags: Vec<String>,
    pub is_reply: bool,
    pub reply_to_id: Option<String>,
    pub is_deleted: bool,
    pub content_tokens: Vec<SerializableTokenData>,
    pub reactions: ReactionSummaryData,
    pub kind: u16,
}

/// The reactions to a message, by emoji and by user.
#[derive(Debug, Clone)]
pub struct ReactionSummaryData {
    pub by_emoji: Vec<EmojiReactionData>,
    pub user_reactions: Vec<UserReactionData>,
}

/// One emoji's reactions: how many, and from which users (hex public keys).
#[derive(Debug, Clone)]
pub struct EmojiReactionData {
    pub emoji: String,
    pub count: u64,
    pub users: Vec<String>,
}

/// One user's reaction (hex public key, emoji, timestamp).
#[derive(Debug, Clone)]
pub struct UserReactionData {
    pub user: String,
    pub emoji: String,
    pub created_at: u64,
}

/// A content token: its kind ("Nostr", "Url", "Hashtag", "Text", "LineBreak"
/// or "Whitespace") and its text, which line breaks and whitespace lack.
#[derive(Debug, Clone)]
pub struct SerializableTokenData {
    pub token_type: String,
    pub content: Option<String>,
}


/// The map that a list of key/value pairs gives when inserted in order: a
/// later pair wins over an earlier one with the same key.
pub open spec fn pairs_map(pairs: Seq<(String, String)>) -> Map<Seq<char>, Seq<char>>
    decreases pairs.len(),
{
    if pairs.len() == 0 {
        Map::empty()
    } else {
        pairs_map(pairs.drop_last()).insert(pairs.last().0@, pairs.last().1@)
    }
}

/// No key occurs twice among the pairs.
pub open spec fn distinct_keys(pairs: Seq<(String, String)>) -> bool {
    forall|i: int, j: int|
        0 <= i < pairs.len() && 0 <= j < pairs.len() && i != j ==> #[trigger] pairs[i].0@
            != #[trigger] pairs[j].0@
}

proof fn lemma_pairs_map_update(pairs: Seq<(String, String)>, j: int, p: (String, String))
    requires
        distinct_keys(pairs),
        0 <= j < pairs.len(),
        p.0@ == pairs[j].0@,
    ensures
        pairs_map(pairs.update(j, p)) == pairs_map(pairs).insert(p.0@, p.1@),
    decreases pairs.len(),
{
    let init = pairs.drop_last();
    let last = pairs.last();
    if j == pairs.len() - 1 {
        assert(pairs.update(j, p).drop_last() =~= init);
        assert(pairs_map(pairs.update(j, p)) =~= pairs_map(pairs).insert(p.0@, p.1@));
    } else {
        assert forall|a: int, b: int|
            0 <= a < init.len() && 0 <= b < init.len() && a != b implies #[trigger] init[a].0@
            != #[trigger] init[b].0@ by {
            assert(init[a] == pairs[a] && init[b] == pairs[b]);
        }
        lemma_pairs_map_update(init, j, p);
        assert(pairs.update(j, p).drop_last() =~= init.update(j, p));
        assert(pairs.update(j, p).last() == last);
        assert(pairs[j].0@ != pairs[pairs.len() - 1].0@);
        assert(pairs_map(pairs.update(j, p)) =~= pairs_map(pairs).insert(p.0@, p.1@));
    }
}

/// Profile metadata, in plain fields, with custom entries kept by key.
#[derive(Debug, Clone)]
pub struct MetadataData {
    pub name: Option<String>,
    pub display_name: Option<String>,
    pub about: Option<String>,
    pub picture: Option<String>,
    pub banner: Option<String>,
    pub website: Option<String>,
    pub nip05: Option<String>,
    pub lud06: Option<String>,
    pub lud16: Option<String>,
    custom: Vec<(String, String)>,
}

impl MetadataData {
    /// The custom entries, by key.
    pub closed spec fn custom_map(&self) -> Map<Seq<char>, Seq<char>> {
        pairs_map(self.custom@)
    }

    /// The profile fields, from `name` to `lud16`, in declaration order.
    pub closed spec fn profile(&self) -> Seq<Option<String>> {
        seq![
            self.name,
            self.display_name,
            self.about,
            self.picture,
            self.banner,
            self.website,
            self.nip05,
            self.lud06,
            self.lud16,
        ]
    }

    /// Each key is held once.
    pub closed spec fn wf(&self) -> bool {
        distinct_keys(self.custom@)
    }

    /// Metadata with every field empty.
    pub fn empty() -> (r: Self)
        ensures
            r.wf(),
            r.custom_map() == Map::<Seq<char>, Seq<char>>::empty(),
            r.profile().len() == 9,
            forall|i: int| 0 <= i < 9 ==> #[trigger] r.profile()[i] is None,
    {
        MetadataData {
            name: None,
            display_name: None,
            about: None,
            picture: None,
            banner: None,
            website: None,
            nip05: None,
            lud06: None,
            lud16: None,
            custom: Vec::new(),
        }
    }

    /// The custom entries as key/value pairs, each key once.
    pub fn get_custom(&self) -> (r: Vec<(String, String)>)
        requires
            self.wf(),
        ensures
            distinct_keys(r@),
            pairs_map(r@) == self.custom_map(),
    {
        let mut out: Vec<(String, String)> = Vec::new();
        let mut i: usize = 0;
        while i < self.custom.len()
            invariant
                i <= self.custom@.len(),
                out@.len() == i,
                forall|k: int| 0 <= k < i ==> out@[k] == #[trigger] self.custom@[k],
            decreases self.custom@.len() - i,
        {
            let key = self.custom[i].0.clone();
            let value = self.custom[i].1.clone();
            out.push((key, value));
            i = i + 1;
        }
        assert(out@ =~= self.custom@);
        out
    }

    /// Replaces the custom entries by the given pairs; where a key occurs more
    /// than once, its last value is kept.
    pub fn set_custom(&mut self, custom_map: Vec<(String, String)>)
        ensures
            final(self).wf(),
            final(self).custom_map() == pairs_map(custom_map@),
            final(self).profile() == old(self).profile(),
    {
        let mut kept: Vec<(String, String)> = Vec::new();
        let mut i: usize = 0;
        while i < custom_map.len()
            invariant
                i <= custom_map@.len(),
                distinct_keys(kept@),
                pairs_map(kept@) == pairs_map(custom_map@.subrange(0, i as int)),
            decreases custom_map@.len() - i,
        {
            let key = custom_map[i].0.clone();
            let value = custom_map[i].1.clone();
            assert(custom_map@.subrange(0, i + 1).drop_last() =~= custom_map@.subrange(
                0,
                i as int,
            ));
            let mut j: usize = 0;
            let mut found = false;
            while j < kept.len()
                invariant_except_break
                    !found,
                invariant
                    j <= kept@.len(),
                    forall|k: int| 0 <= k < j ==> #[trigger] kept@[k].0@ != key@,
                ensures
                    found ==> j < kept@.len() && kept@[j as int].0@ == key@,
                    !found ==> j == kept@.len(),
                decreases kept@.len() - j,
            {
                if kept[j].0 == key {
                    found = true;
                    break;
                }
                j = j + 1;
            }
            if found {
                let ghost before = kept@;
                proof {
                    lemma_pairs_map_update(before, j as int, (key, value));
                }
                kept.set(j, (key, value));
                assert forall|a: int, b: int|
                    0 <= a < kept@.len() && 0 <= b < kept@.len() && a != b implies #[trigger] kept@[a].0@
                    != #[trigger] kept@[b].0@ by {
                    assert(kept@[a].0@ == before[a].0@ && kept@[b].0@ == before[b].0@);
                }
            } else {
                let ghost before = kept@;
                kept.push((key, value));
                assert(kept@.drop_last() =~= before);
                assert forall|a: int, b: int|
                    0 <= a < kept@.len() && 0 <= b < kept@.len() && a != b implies #[trigger] kept@[a].0@
                    != #[trigger] kept@[b].0@ by {
                    if a < before.len() && b < before.len() {
                        assert(before[a].0@ != before[b].0@);
                    } else if a < before.len() {
                        assert(before[a].0@ != key@);
                    } else {
                        assert(before[b].0@ != key@);
                    }
                }
            }
            i = i + 1;
        }
        assert(custom_map@.subrange(0, i as int) =~= custom_map@);
        self.custom = kept;
    }
}

} // verus!
