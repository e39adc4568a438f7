//! The flag store's pure half: artifact naming, encoding, decoding, and
//! session queries. Writing the named artifact into the store's
//! directory, and reading artifacts back, is file work left to the
//! caller; everything that decides bytes and names is verified here.

use vstd::prelude::*;
use crate::codec::{
    enc_flag, encode_flag, flag_codec_wf, flag_of_text, lemma_flag_round_trip, push_lit,
    spec_flag_of_text,
};
use crate::models::{flag_wf, Flag, FlagView};
use vstd::string::StringExecFns;
use vstd::string::StrSliceExecFns;

verus! {

/// Persistence and retrieval of flag records as individually named
/// artifacts under one directory.
pub struct FlagStorage {
    pub flags_dir: String,
}

/// The artifact name for a flag: a timestamp and the first eight
/// characters of the flag's identifier.
pub open spec fn spec_flag_file_name(stamp: Seq<char>, id: Seq<char>) -> Seq<char> {
    "flag_"@ + stamp + "_"@ + id.take(8) + ".json"@
}

/// The views of a batch of flags, in order.
pub open spec fn flags_view(fs: Seq<Flag>) -> Seq<FlagView> {
    fs.map_values(|f: Flag| f@)
}

/// The views of a batch of artifact texts, in order.
pub open spec fn texts_view(ts: Seq<String>) -> Seq<Seq<char>> {
    ts.map_values(|t: String| t@)
}

/// The flags of these artifact texts, in order; a text that does not
/// parse contributes nothing.
pub open spec fn spec_decoded(texts: Seq<Seq<char>>) -> Seq<FlagView>
    decreases texts.len(),
{
    if texts.len() == 0 {
        Seq::empty()
    } else {
        spec_decoded(texts.drop_last()) + (match spec_flag_of_text(texts.last()) {
            Some(f) => seq![f],
            None => Seq::empty(),
        })
    }
}

/// Membership in a session, as the session query selects it.
pub open spec fn session_pred(sid: Seq<char>) -> spec_fn(Flag) -> bool {
    |f: Flag| f.session_id@ == sid
}

impl FlagStorage {
    /// A store rooted at this directory.
    pub fn new(flags_dir: &str) -> (r: FlagStorage)
        ensures
            r.flags_dir@ == flags_dir@,
    {
        FlagStorage { flags_dir: String::from_str(flags_dir) }
    }

    /// The store's directory.
    pub fn get_flags_dir(&self) -> (r: &str)
        ensures
            r@ == self.flags_dir@,
    {
        self.flags_dir.as_str()
    }

    /// The artifact for one flag: its file name, built from a fresh
    /// timestamp and the identifier prefix, and its encoded body. The
    /// caller writes the body under the name in the store's directory.
    pub fn save_artifact(&self, flag: &Flag) -> (r: (String, String))
        requires
            flag_wf(flag@),
        ensures
            r.1@ == enc_flag(flag@),
            exists|stamp: Seq<char>| r.0@ == spec_flag_file_name(stamp, flag.id@),
    {
        let stamp = file_stamp_now();
        let name = flag_file_name(stamp.as_str(), flag);
        let body = encode_flag(flag);
        proof {
            assert(name@ == spec_flag_file_name(stamp@, flag.id@));
        }
        (name, body)
    }
}

/// Relies on `chrono::Utc::now` and `DateTime::format` with
/// `%Y-%m-%d_%H-%M-%S-%3f`: the wall clock printed to millisecond
/// resolution for the artifact name. Nothing is promised of its value.
#[verifier::external_body]
fn file_stamp_now() -> (r: String) {
    chrono::Utc::now().format("%Y-%m-%d_%H-%M-%S-%3f").to_string()
}

/// The artifact name for a flag under a given timestamp text.
pub fn flag_file_name(stamp: &str, flag: &Flag) -> (r: String)
    requires
        flag.id@.len() >= 8,
        vstd::utf8::is_ascii_chars(flag.id@),
    ensures
        r@ == spec_flag_file_name(stamp@, flag.id@),
{
    let mut out: Vec<char> = Vec::new();
    push_lit(&mut out, "flag_");
    push_lit(&mut out, stamp);
    push_lit(&mut out, "_");
    let prefix = flag.id.as_str().substring_ascii(0, 8);
    push_lit(&mut out, prefix);
    push_lit(&mut out, ".json");
    proof {
        assert(prefix@ =~= flag.id@.take(8));
        assert(out@ =~= spec_flag_file_name(stamp@, flag.id@));
    }
    crate::codec::chars_to_string(&out)
}

/// Decodes a batch of artifact texts, in order; an unparseable text is
/// skipped and the rest still decode.
pub fn decode_artifacts(texts: &Vec<String>) -> (r: Vec<Flag>)
    ensures
        flags_view(r@) == spec_decoded(texts_view(texts@)),
{
    let ghost tv = texts_view(texts@);
    let mut out: Vec<Flag> = Vec::new();
    let mut j: usize = 0;
    while j < texts.len()
        invariant
            j <= texts.len(),
            tv == texts_view(texts@),
            tv.len() == texts@.len(),
            flags_view(out@) == spec_decoded(tv.take(j as int)),
        decreases texts.len() - j,
    {
        proof {
            assert(tv.take(j + 1).drop_last() =~= tv.take(j as int));
            assert(tv.take(j + 1).last() == texts@[j as int]@);
        }
        match flag_of_text(texts[j].as_str()) {
            Some(f) => {
                out.push(f);
                proof {
                    assert(flags_view(out@) =~= spec_decoded(tv.take(j as int)).push(
                        spec_flag_of_text(tv[j as int])->0,
                    ));
                    assert(spec_decoded(tv.take(j + 1)) =~= spec_decoded(tv.take(j as int)).push(
                        spec_flag_of_text(tv[j as int])->0,
                    ));
                }
            },
            None => {
                proof {
                    assert(spec_decoded(tv.take(j + 1)) =~= spec_decoded(tv.take(j as int)));
                }
            },
        }
        j = j + 1;
    }
    proof {
        assert(tv.take(tv.len() as int) =~= tv);
    }
    out
}

/// Round trip through the store: saving one more well-formed flag and
/// decoding everything yields the earlier collection with exactly that
/// flag appended.
pub proof fn lemma_store_round_trip(texts: Seq<Seq<char>>, f: FlagView)
    requires
        flag_codec_wf(f),
    ensures
        spec_decoded(texts.push(enc_flag(f))) == spec_decoded(texts).push(f),
{
    lemma_flag_round_trip(f);
    assert(texts.push(enc_flag(f)).drop_last() =~= texts);
    assert(texts.push(enc_flag(f)).last() == enc_flag(f));
    assert(spec_decoded(texts.push(enc_flag(f))) =~= spec_decoded(texts).push(f));
}

/// The flags of one session: exactly the decoded batch filtered by
/// session identity, order preserved.
pub fn get_flags_by_session(flags: Vec<Flag>, session_id: &str) -> (r: Vec<Flag>)
    ensures
        r@ == flags@.filter(session_pred(session_id@)),
{
    let ghost all = flags@;
    let ghost pred = session_pred(session_id@);
    let mut rest = flags;
    let mut out: Vec<Flag> = Vec::new();
    let ghost done: Seq<Flag> = Seq::empty();
    proof {
        assert(done + rest@ =~= all);
        assert(done.filter(pred) =~= Seq::<Flag>::empty());
    }
    let mut processed: Ghost<Seq<Flag>> = Ghost(done);
    while rest.len() > 0
        invariant
            processed@ + rest@ == all,
            out@ == processed@.filter(session_pred(session_id@)),
        decreases rest.len(),
    {
        let ghost before = rest@;
        let f = rest.remove(0);
        let ghost fa = f;
        proof {
            assert(before[0] == fa);
            assert(processed@.push(fa) + rest@ =~= all);
            processed@.lemma_filter_push(fa, session_pred(session_id@));
        }
        if crate::codec::str_equal(f.session_id.as_str(), session_id) {
            out.push(f);
        }
        processed = Ghost(processed@.push(fa));
    }
    proof {
        assert(processed@ =~= all);
    }
    out
}

} // verus!
