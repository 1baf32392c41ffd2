//! Emote bookkeeping: which image request an emote needs, which emotes are
//! being loaded, what loading one records, and the emote lists by name.

use vstd::prelude::*;
use crate::name_map::NameMap;
use crate::model::{Emote, EmoteRequest, EmoteSource, EmoteStatus};
use crate::animation::{total_delay, total_duration};
use crate::text::{chars_of, clone_opt_string, has_infix, opt_str_view};

verus! {

/// `r` is the image request for emote `e`: its kind follows the emote's
/// source, and it carries the emote's own fields.
pub open spec fn is_request_for(e: Emote, r: EmoteRequest) -> bool {
    match e.source {
        EmoteSource::Channel => r matches EmoteRequest::ChannelEmoteImage { name, id, url, path, extension, channel_name, css_anim }
            && name@ == e.name@ && id@ == e.id@ && url@ == e.url@ && path@ == e.path@
            && opt_str_view(extension) == opt_str_view(e.extension) && channel_name@ == e.channel_name@
            && css_anim == e.css_anim,
        EmoteSource::Global => r matches EmoteRequest::GlobalEmoteImage { name, id, url, path, extension }
            && name@ == e.name@ && id@ == e.id@ && url@ == e.url@ && path@ == e.path@
            && opt_str_view(extension) == opt_str_view(e.extension),
        EmoteSource::ChannelBadge => r matches EmoteRequest::ChannelBadgeImage { name, id, url, path, extension, channel_name }
            && name@ == e.name@ && id@ == e.id@ && url@ == e.url@ && path@ == e.path@
            && opt_str_view(extension) == opt_str_view(e.extension) && channel_name@ == e.channel_name@,
        EmoteSource::GlobalBadge => r matches EmoteRequest::GlobalBadgeImage { name, id, url, path, extension }
            && name@ == e.name@ && id@ == e.id@ && url@ == e.url@ && path@ == e.path@
            && opt_str_view(extension) == opt_str_view(e.extension),
        EmoteSource::Twitch => r matches EmoteRequest::TwitchMsgEmoteImage { name, id }
            && name@ == e.name@ && id@ == e.id@,
        EmoteSource::Youtube => r matches EmoteRequest::YouTubeMsgEmoteImage { name, url, path }
            && name@ == e.name@ && url@ == e.url@ && path@ == e.path@,
    }
}

impl Emote {
    /// The request that loads this emote's image.
    pub fn get_emote_request(&self) -> (r: EmoteRequest)
        ensures
            is_request_for(*self, r),
    {
        match self.source {
            EmoteSource::Channel => EmoteRequest::ChannelEmoteImage {
                name: self.name.clone(),
                id: self.id.clone(),
                url: self.url.clone(),
                path: self.path.clone(),
                extension: clone_opt_string(&self.extension),
                channel_name: self.channel_name.clone(),
                css_anim: self.css_anim,
            },
            EmoteSource::Global => EmoteRequest::GlobalEmoteImage {
                name: self.name.clone(),
                id: self.id.clone(),
                url: self.url.clone(),
                path: self.path.clone(),
                extension: clone_opt_string(&self.extension),
            },
            EmoteSource::ChannelBadge => EmoteRequest::ChannelBadgeImage {
                name: self.name.clone(),
                id: self.id.clone(),
                url: self.url.clone(),
                path: self.path.clone(),
                extension: clone_opt_string(&self.extension),
                channel_name: self.channel_name.clone(),
            },
            EmoteSource::GlobalBadge => EmoteRequest::GlobalBadgeImage {
                name: self.name.clone(),
                id: self.id.clone(),
                url: self.url.clone(),
                path: self.path.clone(),
                extension: clone_opt_string(&self.extension),
            },
            EmoteSource::Twitch => EmoteRequest::TwitchMsgEmoteImage { name: self.name.clone(), id: self.id.clone() },
            EmoteSource::Youtube => EmoteRequest::YouTubeMsgEmoteImage {
                name: self.name.clone(),
                url: self.url.clone(),
                path: self.path.clone(),
            },
        }
    }
}

/// The emote loader's bookkeeping: the names whose images have been asked for
/// and have not arrived yet.
pub struct EmoteLoader {
    pub loading_emotes: NameMap<()>,
}

impl EmoteLoader {
    /// A loader with nothing in flight.
    pub fn new() -> (r: Self)
        ensures
            r.loading_emotes.wf(),
            r.loading_emotes.view() == Map::<Seq<char>, ()>::empty(),
    {
        EmoteLoader { loading_emotes: NameMap::new() }
    }

    /// Records that `name` is wanted. Gives back the request to send when the
    /// name was not already being loaded, and nothing when it was.
    pub fn request_emote(&mut self, name: &String, request: EmoteRequest) -> (r: Option<EmoteRequest>)
        requires
            old(self).loading_emotes.wf(),
        ensures
            final(self).loading_emotes.wf(),
            final(self).loading_emotes.view().dom() == old(self).loading_emotes.view().dom().insert(name@),
            old(self).loading_emotes.view().contains_key(name@) ==> r is None,
            !old(self).loading_emotes.view().contains_key(name@) ==> r == Some(request),
    {
        if self.loading_emotes.contains_key(name.as_str()) {
            assert(self.loading_emotes.view().dom() =~= self.loading_emotes.view().dom().insert(name@));
            None
        } else {
            self.loading_emotes.insert(name.clone(), ());
            Some(request)
        }
    }
}

impl Emote {
    /// What showing this emote asks of the loader: an image request when the
    /// image has not been loaded and is not already on its way.
    pub fn request_if_not_loaded(&self, loader: &mut EmoteLoader) -> (r: Option<EmoteRequest>)
        requires
            old(loader).loading_emotes.wf(),
        ensures
            final(loader).loading_emotes.wf(),
            self.loaded == EmoteStatus::Loaded ==> r is None && final(loader).loading_emotes == old(loader).loading_emotes,
            self.loaded == EmoteStatus::NotLoaded ==> {
                &&& final(loader).loading_emotes.view().dom() == old(loader).loading_emotes.view().dom().insert(self.name@)
                &&& old(loader).loading_emotes.view().contains_key(self.name@) ==> r is None
                &&& !old(loader).loading_emotes.view().contains_key(self.name@) ==> (r matches Some(q) && is_request_for(*self, q))
            },
    {
        match self.loaded {
            EmoteStatus::NotLoaded => {
                let req = self.get_emote_request();
                loader.request_emote(&self.name, req)
            },
            EmoteStatus::Loaded => None,
        }
    }
}

/// The frame delays of a decoded image, when it decoded, fit in an animation
/// length.
pub open spec fn delays_fit(delays: Option<Vec<u16>>) -> bool {
    delays matches Some(d) ==> total_delay(d@) <= u16::MAX
}

/// An emote once its image has arrived: loaded, keeping the frame delays it
/// had, or else taking the delays received and their total.
pub open spec fn emote_after_load(e: Emote, delays: Option<Vec<u16>>) -> Emote {
    if e.frame_delays is Some {
        Emote { loaded: EmoteStatus::Loaded, ..e }
    } else {
        Emote {
            loaded: EmoteStatus::Loaded,
            frame_delays: delays,
            duration_msec: match delays {
                Some(d) => total_delay(d@) as u16,
                None => 0,
            },
            ..e
        }
    }
}

/// Records that an emote's image arrived: the first delays received are kept,
/// with their total as the animation length, the emote counts as loaded, and
/// it is no longer in flight.
pub fn load_emote_data(emote: &mut Emote, delays: Option<Vec<u16>>, loader: &mut EmoteLoader)
    requires
        old(loader).loading_emotes.wf(),
        delays_fit(delays),
    ensures
        final(loader).loading_emotes.wf(),
        final(loader).loading_emotes.view() == old(loader).loading_emotes.view().remove(old(emote).name@),
        final(emote).loaded == EmoteStatus::Loaded,
        old(emote).frame_delays is Some ==> final(emote).frame_delays == old(emote).frame_delays
            && final(emote).duration_msec == old(emote).duration_msec,
        old(emote).frame_delays is None ==> final(emote).frame_delays == delays
            && final(emote).duration_msec == match delays {
                Some(d) => total_delay(d@),
                None => 0,
            },
        final(emote).name == old(emote).name,
        final(emote).id == old(emote).id,
        final(emote).source == old(emote).source,
        final(emote).channel_name == old(emote).channel_name,
        final(emote).url == old(emote).url,
        final(emote).path == old(emote).path,
        final(emote).extension == old(emote).extension,
        final(emote).display_name == old(emote).display_name,
        final(emote).color == old(emote).color,
        final(emote).zero_width == old(emote).zero_width,
        final(emote).css_anim == old(emote).css_anim,
        final(emote).priority == old(emote).priority,
        final(emote).hidden == old(emote).hidden,
        *final(emote) == emote_after_load(*old(emote), delays),
{
    if emote.frame_delays.is_none() {
        let duration = match &delays {
            Some(d) => total_duration(d),
            None => 0,
        };
        emote.frame_delays = delays;
        emote.duration_msec = duration;
    }
    emote.loaded = EmoteStatus::Loaded;
    loader.loading_emotes.remove(emote.name.as_str());
}

/// The map that results from inserting emotes by name, in order, later ones
/// replacing earlier ones of the same name.
pub open spec fn insert_all(m: Map<Seq<char>, Emote>, emotes: Seq<Emote>) -> Map<Seq<char>, Emote>
    decreases emotes.len(),
{
    if emotes.len() == 0 {
        m
    } else {
        insert_all(m, emotes.drop_last()).insert(emotes.last().name@, emotes.last())
    }
}

/// Adds emotes to a map by their names, in order.
pub fn insert_by_name(map: &mut NameMap<Emote>, emotes: Vec<Emote>)
    requires
        old(map).wf(),
    ensures
        final(map).wf(),
        final(map).view() == insert_all(old(map).view(), emotes@),
{
    let ghost start = map.view();
    let ghost all = emotes@;
    let mut emotes = emotes;
    let n = emotes.len();
    let mut k: usize = 0;
    while emotes.len() > 0
        invariant
            map.wf(),
            n == all.len(),
            k + emotes@.len() == n,
            emotes@ == all.skip(k as int),
            map.view() == insert_all(start, all.take(k as int)),
        decreases emotes@.len(),
    {
        let e = emotes.remove(0);
        proof {
            assert(all.take(k + 1).drop_last() == all.take(k as int));
            assert(all.take(k + 1).last() == all[k as int]);
            assert(emotes@ == all.skip(k + 1));
        }
        let name = e.name.clone();
        map.insert(name, e);
        k += 1;
    }
    assert(all.take(n as int) == all);
}

/// Merges emote lists into one map by name, list after list; where two
/// emotes share a name, the later one is kept.
pub open spec fn merge_lists(lists: Seq<Vec<Emote>>) -> Map<Seq<char>, Emote>
    decreases lists.len(),
{
    if lists.len() == 0 {
        Map::empty()
    } else {
        insert_all(merge_lists(lists.drop_last()), lists.last()@)
    }
}

/// Merges several emote lists into one map by name; where two lists have an
/// emote of the same name, the later list's one is kept.
pub fn emotes_by_name(lists: Vec<Vec<Emote>>) -> (r: NameMap<Emote>)
    ensures
        r.wf(),
        r.view() == merge_lists(lists@),
{
    let mut r: NameMap<Emote> = NameMap::new();
    let ghost all = lists@;
    let mut lists = lists;
    let n = lists.len();
    let mut k: usize = 0;
    assert(all.take(0).len() == 0);
    while lists.len() > 0
        invariant
            r.wf(),
            n == all.len(),
            k + lists@.len() == n,
            lists@ == all.skip(k as int),
            r.view() == merge_lists(all.take(k as int)),
        decreases lists@.len(),
    {
        let l = lists.remove(0);
        proof {
            assert(all.take(k + 1).drop_last() == all.take(k as int));
            assert(all.take(k + 1).last() == all[k as int]);
            assert(lists@ == all.skip(k + 1));
        }
        insert_by_name(&mut r, l);
        k += 1;
    }
    assert(all.take(n as int) == all);
    r
}

/// Twitch emote sets that are not fetched: those whose id holds a ':', a '-'
/// or the text "emotesv2".
pub open spec fn emote_set_skipped(id: Seq<char>) -> bool {
    crate::text::contains_spec(id, seq![':']) || crate::text::contains_spec(id, seq!['-'])
        || crate::text::contains_spec(id, seq!['e', 'm', 'o', 't', 'e', 's', 'v', '2'])
}

/// Whether a Twitch emote set id is one that is not fetched.
pub fn skip_emote_set(emote_set_id: &str) -> (r: bool)
    ensures
        r == emote_set_skipped(emote_set_id@),
{
    let id = chars_of(emote_set_id);
    let colon = [':'];
    let dash = ['-'];
    let v2 = ['e', 'm', 'o', 't', 'e', 's', 'v', '2'];
    assert(colon@ == seq![':']);
    assert(dash@ == seq!['-']);
    assert(v2@ == seq!['e', 'm', 'o', 't', 'e', 's', 'v', '2']);
    has_infix(id.as_slice(), colon.as_slice()) || has_infix(id.as_slice(), dash.as_slice())
        || has_infix(id.as_slice(), v2.as_slice())
}

} // verus!
