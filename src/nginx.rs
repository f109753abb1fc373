//! The RTMP server's statistics page, as plain values, and the choice of the
//! configured stream's bitrate on it.
use crate::config::Rtmp;
use crate::error::Error;
use vstd::prelude::*;

verus! {

/// One application of the RTMP server.
#[derive(Debug)]
pub struct NginxRtmpApp {
    pub name: String,
    pub live: NginxRtmpLive,
}

/// The live streams of an application.
#[derive(Debug)]
pub struct NginxRtmpLive {
    pub stream: Option<Vec<NginxRtmpStream>>,
}

/// One live stream and its video bandwidth in bits per second.
#[derive(Debug)]
pub struct NginxRtmpStream {
    pub name: String,
    pub bw_video: u32,
}

/// The video bandwidths of the streams named `key`, in order.
pub open spec fn stream_rates(streams: Seq<NginxRtmpStream>, key: Seq<char>) -> Seq<u32>
    decreases streams.len(),
{
    if streams.len() == 0 {
        seq![]
    } else {
        let before = stream_rates(streams.drop_last(), key);
        if streams.last().name@ == key {
            before.push(streams.last().bw_video)
        } else {
            before
        }
    }
}

/// The live streams of an application, none when it lists none.
pub open spec fn live_streams(app: NginxRtmpApp) -> Seq<NginxRtmpStream> {
    match app.live.stream {
        Some(s) => s@,
        None => seq![],
    }
}

/// The video bandwidths of the streams named `key` in the applications named
/// `application`, in order.
pub open spec fn app_rates(apps: Seq<NginxRtmpApp>, application: Seq<char>, key: Seq<char>) -> Seq<u32>
    decreases apps.len(),
{
    if apps.len() == 0 {
        seq![]
    } else {
        let before = app_rates(apps.drop_last(), application, key);
        if apps.last().name@ == application {
            before + stream_rates(live_streams(apps.last()), key)
        } else {
            before
        }
    }
}

/// The bitrate in kilobits per second of the last matching stream, if any.
pub open spec fn rtmp_bitrate(apps: Seq<NginxRtmpApp>, application: Seq<char>, key: Seq<char>) -> Option<u32> {
    let rates = app_rates(apps, application, key);
    if rates.len() == 0 {
        None
    } else {
        Some((rates.last() / 1024) as u32)
    }
}

/// Reads the status code of the statistics page.
pub fn rtmp_stats_status(status: u16) -> (r: Result<(), Error>)
    ensures
        r == if status == 200 {
            Ok::<(), Error>(())
        } else {
            Err(Error::RtmpDown)
        },
{
    if status == 200 {
        Ok(())
    } else {
        Err(Error::RtmpDown)
    }
}

fn matching_rates(streams: &Vec<NginxRtmpStream>, key: &String, rates: &mut Vec<u32>)
    ensures
        final(rates)@ == old(rates)@ + stream_rates(streams@, key@),
{
    let ghost start = rates@;
    let mut i: usize = 0;
    while i < streams.len()
        invariant
            i <= streams.len(),
            rates@ == start + stream_rates(streams@.take(i as int), key@),
        decreases streams.len() - i,
    {
        proof {
            assert(streams@.take(i + 1).drop_last() =~= streams@.take(i as int));
            assert(streams@.take(i + 1).last() == streams@[i as int]);
        }
        if streams[i].name == *key {
            rates.push(streams[i].bw_video);
        }
        i = i + 1;
        assert(rates@ =~= start + stream_rates(streams@.take(i as int), key@));
    }
    assert(streams@.take(i as int) =~= streams@);
}

/// The bitrate of the configured stream on the statistics page, in kilobits
/// per second: the last stream named after the key in an application named
/// after the configured one; `None` when there is none.
pub fn get_rtmp_bitrate(config: &Rtmp, apps: &Vec<NginxRtmpApp>) -> (r: Option<u32>)
    ensures
        r == rtmp_bitrate(apps@, config.application@, config.key@),
{
    let mut rates: Vec<u32> = Vec::new();
    let mut i: usize = 0;
    while i < apps.len()
        invariant
            i <= apps.len(),
            rates@ == app_rates(apps@.take(i as int), config.application@, config.key@),
        decreases apps.len() - i,
    {
        proof {
            assert(apps@.take(i + 1).drop_last() =~= apps@.take(i as int));
            assert(apps@.take(i + 1).last() == apps@[i as int]);
        }
        if apps[i].name == config.application {
            match &apps[i].live.stream {
                Some(streams) => matching_rates(streams, &config.key, &mut rates),
                None => {
                    assert(stream_rates(seq![], config.key@) =~= Seq::<u32>::empty());
                    assert(rates@ + Seq::<u32>::empty() =~= rates@);
                },
            }
        }
        i = i + 1;
    }
    assert(apps@.take(i as int) =~= apps@);
    if rates.len() == 0 {
        None
    } else {
        Some(rates[rates.len() - 1] / 1024)
    }
}

} // verus!
