use std::sync::{Arc, Mutex};
use unm::atlas::plan_atlas;
use unm::clip::{ClipMap, ClipTable, SfxHandle};
use unm::mixer::{MixSpan, Mixer};
use unm::player::{
    maintain_plan, register_sources, AudioBackend, BackendState, MaintainPlan, SfxManager,
};

#[test]
fn atlas_packs_clips_on_sixteen_sample_boundaries() {
    let sources = vec![(SfxHandle(1), 10), (SfxHandle(2), 20), (SfxHandle(3), 16)];
    let (table, total) = plan_atlas(&sources);
    assert_eq!(total, 64);
    assert_eq!(table.len(), 3);
    assert_eq!(table.get(SfxHandle(1)), Some(ClipMap { offset: 0, frames_count: 10 }));
    assert_eq!(table.get(SfxHandle(2)), Some(ClipMap { offset: 16, frames_count: 20 }));
    assert_eq!(table.get(SfxHandle(3)), Some(ClipMap { offset: 48, frames_count: 16 }));
    assert_eq!(table.get(SfxHandle(4)), None);
}

#[test]
fn atlas_of_nothing_is_empty() {
    let (table, total) = plan_atlas(&Vec::new());
    assert_eq!(total, 0);
    assert_eq!(table.len(), 0);
    let (table, total) = plan_atlas(&vec![(SfxHandle(9), 0), (SfxHandle(8), 3)]);
    assert_eq!(total, 3);
    assert_eq!(table.get(SfxHandle(8)), Some(ClipMap { offset: 0, frames_count: 3 }));
}

#[test]
fn mixer_with_nothing_playing_leaves_the_buffer() {
    let mut m = Mixer::new();
    assert_eq!(m.mix(2, 64), None);
}

#[test]
fn mixer_advances_and_drops_finished_sounds() {
    let mut m = Mixer::new();
    m.add_sound(ClipMap { offset: 16, frames_count: 5 });
    m.add_sound(ClipMap { offset: 0, frames_count: 10 });
    assert_eq!(
        m.mix(2, 8),
        Some(vec![MixSpan { source_start: 16, frames: 4 }, MixSpan { source_start: 0, frames: 4 }])
    );
    assert_eq!(
        m.mix(2, 8),
        Some(vec![MixSpan { source_start: 20, frames: 1 }, MixSpan { source_start: 4, frames: 4 }])
    );
    assert_eq!(m.mix(2, 8), Some(vec![MixSpan { source_start: 8, frames: 2 }]));
    assert_eq!(m.mix(2, 8), None);
}

#[test]
fn mixer_plays_only_known_handles() {
    let mut clips = ClipTable::new();
    clips.insert(SfxHandle(1), ClipMap { offset: 32, frames_count: 3 });
    let mut m = Mixer::new();
    assert!(!m.play_handle(SfxHandle(2), &clips));
    assert_eq!(m.mix(1, 4), None);
    assert!(m.play_handle(SfxHandle(1), &clips));
    assert_eq!(m.mix(1, 4), Some(vec![MixSpan { source_start: 32, frames: 3 }]));
    assert_eq!(m.mix(1, 4), None);
}

#[test]
fn maintain_plan_decisions() {
    assert_eq!(maintain_plan(false, false, false), MaintainPlan { reset: false, build: false });
    assert_eq!(maintain_plan(false, true, false), MaintainPlan { reset: false, build: true });
    assert_eq!(maintain_plan(false, true, true), MaintainPlan { reset: false, build: false });
    assert_eq!(maintain_plan(true, true, true), MaintainPlan { reset: true, build: true });
    assert_eq!(maintain_plan(true, false, true), MaintainPlan { reset: true, build: false });
}

#[test]
fn sources_get_handles_in_order() {
    let (map, handles) = register_sources(vec!["a", "b", "c"]);
    assert_eq!(map.len(), 3);
    assert_eq!(map.get(SfxHandle(1)), Some(&"a"));
    assert_eq!(map.get(SfxHandle(2)), Some(&"b"));
    assert_eq!(map.get(SfxHandle(3)), Some(&"c"));
    assert_eq!(map.peek_next_id(), 4);
    let mut ids: Vec<u64> = handles.iter().map(|h| h.0).collect();
    ids.sort();
    assert_eq!(ids, vec![1, 2, 3]);
    let (map, handles) = register_sources(Vec::<u8>::new());
    assert!(map.is_empty());
    assert!(handles.is_empty());
}

/// A backend without a device: it logs each call and keeps its state as the contracts
/// describe it.
struct FakeBackend {
    log: Arc<Mutex<Vec<String>>>,
    state: Arc<Mutex<BackendState>>,
}

fn fresh_state() -> BackendState {
    BackendState {
        device_lost: false,
        has_sources: false,
        sound_count: 0,
        has_stream: false,
        queue_full: false,
        last_play: None,
        plays_accepted: 0,
        build_attempts: 0,
    }
}

impl AudioBackend for FakeBackend {
    fn state(&self) -> BackendState {
        *self.state.lock().unwrap()
    }

    fn build_stream(&mut self) -> Result<(), anyhow::Error> {
        self.log.lock().unwrap().push("build".to_string());
        let mut st = self.state.lock().unwrap();
        if st.has_sources {
            st.build_attempts = st.build_attempts.wrapping_add(1);
            st.has_stream = true;
        }
        Ok(())
    }

    fn maintain_stream(&mut self) {
        self.log.lock().unwrap().push("maintain".to_string());
        let st = self.state();
        let plan = maintain_plan(st.device_lost, st.has_sources, st.has_stream);
        if plan.reset {
            let mut st = self.state.lock().unwrap();
            st.has_stream = false;
            st.device_lost = false;
            st.last_play = None;
            st.plays_accepted = 0;
        }
        if plan.build {
            let _ = self.build_stream();
        }
    }

    fn init_load_sound(&mut self, datas: Vec<Vec<u8>>) -> Option<Vec<SfxHandle>> {
        self.log.lock().unwrap().push(format!("load {}", datas.len()));
        {
            let mut st = self.state.lock().unwrap();
            st.has_sources = true;
            st.sound_count = datas.len() as u64;
        }
        self.build_stream().ok()?;
        Some((1..=datas.len() as u64).map(SfxHandle).collect())
    }

    fn play(&mut self, handle: SfxHandle) {
        self.log.lock().unwrap().push(format!("play {}", handle.0));
        let mut st = self.state.lock().unwrap();
        if !st.queue_full {
            st.last_play = Some(handle);
            st.plays_accepted = st.plays_accepted.wrapping_add(1);
        }
    }
}

#[test]
fn manager_forwards_to_the_backend() {
    let log = Arc::new(Mutex::new(Vec::new()));
    let state = Arc::new(Mutex::new(fresh_state()));
    let backend = FakeBackend { log: log.clone(), state: state.clone() };
    let mut sfx = SfxManager::new(Box::new(backend));
    let handles = sfx.init_load_sound(vec![vec![1], vec![2]]).unwrap();
    assert_eq!(handles, vec![SfxHandle(1), SfxHandle(2)]);
    sfx.play(SfxHandle(2));
    assert_eq!(state.lock().unwrap().last_play, Some(SfxHandle(2)));
    assert_eq!(state.lock().unwrap().sound_count, 2);
    assert_eq!(state.lock().unwrap().plays_accepted, 1);
    sfx.maintain_stream();
    assert_eq!(*log.lock().unwrap(), vec!["load 2", "build", "play 2", "maintain"]);
    state.lock().unwrap().device_lost = true;
    sfx.maintain_stream();
    let st = *state.lock().unwrap();
    assert!(st.has_stream && !st.device_lost);
    assert_eq!((st.last_play, st.plays_accepted, st.build_attempts), (None, 0, 2));
    state.lock().unwrap().queue_full = true;
    sfx.play(SfxHandle(1));
    assert_eq!(state.lock().unwrap().plays_accepted, 0);
}
