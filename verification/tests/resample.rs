use audioadapter_buffers::direct::InterleavedSlice;
use rubato::{
    Async, FixedAsync, PolynomialDegree, Resampler as Engine, SincInterpolationParameters,
    SincInterpolationType, WindowFunction,
};
use wedeo::resample::{Quality, Resampler, DEFAULT_CHUNK_SIZE};

struct Rig {
    state: Resampler<f32>,
    engine: Async<f32>,
}

fn rig(from: u32, to: u32, channels: usize, quality: Quality) -> Option<Rig> {
    let state = Resampler::new(from, to, channels).ok()?;
    let ratio = to as f64 / from as f64;
    let size = DEFAULT_CHUNK_SIZE;
    let engine = match quality {
        Quality::Fast => Async::new_poly(
            ratio,
            1.0,
            PolynomialDegree::Cubic,
            size,
            channels,
            FixedAsync::Input,
        ),
        Quality::Normal | Quality::High => {
            let long = quality == Quality::High;
            let len = if long { 256 } else { 128 };
            let params = SincInterpolationParameters {
                sinc_len: len,
                f_cutoff: 0.95,
                interpolation: if long {
                    SincInterpolationType::Cubic
                } else {
                    SincInterpolationType::Linear
                },
                oversampling_factor: len,
                window: WindowFunction::BlackmanHarris2,
            };
            Async::new_sinc(ratio, 1.0, &params, size, channels, FixedAsync::Input)
        }
    };
    Some(Rig { state, engine: engine.ok()? })
}

impl Rig {
    fn run(&mut self, chunk: &[f32]) -> Vec<f32> {
        let n = self.state.channels();
        let adapter = InterleavedSlice::new(chunk, n, chunk.len() / n).unwrap();
        self.engine.process(&adapter, 0, None).unwrap().take_data()
    }

    fn process(&mut self, input: &[f32]) -> Option<Vec<f32>> {
        self.state.accept(input).ok()?;
        let mut output = Vec::new();
        while let Some(chunk) = self.state.next_chunk() {
            output.extend(self.run(&chunk));
        }
        Some(output)
    }

    fn flush(&mut self) -> Vec<f32> {
        match self.state.start_flush(0.0) {
            None => Vec::new(),
            Some((frames, chunk)) => {
                let mut data = self.run(&chunk);
                let announced = self.engine.output_frames_next();
                data.truncate(self.state.tail_samples(announced, data.len(), frames));
                self.state.reset();
                data
            }
        }
    }
}

#[test]
fn create_resampler_all_qualities() {
    for quality in [Quality::Fast, Quality::Normal, Quality::High] {
        let r = rig(44100, 48000, 2, quality);
        assert!(r.is_some(), "Failed to create resampler with {quality:?}");
        let r = r.unwrap();
        assert_eq!(r.state.from_rate(), 44100);
        assert_eq!(r.state.to_rate(), 48000);
        assert_eq!(r.state.channels(), 2);
    }
}

#[test]
fn invalid_params() {
    assert!(rig(0, 48000, 2, Quality::Fast).is_none());
    assert!(rig(44100, 0, 2, Quality::Fast).is_none());
    assert!(rig(44100, 48000, 0, Quality::Fast).is_none());
}

#[test]
fn process_silence() {
    let mut r = rig(44100, 48000, 1, Quality::Fast).unwrap();
    let input = vec![0.0f32; 44100];
    let output = r.process(&input).unwrap();
    let tail = r.flush();
    let total_frames = output.len() + tail.len();
    assert!(
        total_frames > 40000 && total_frames < 56000,
        "Unexpected output length: {total_frames}"
    );
    for &s in output.iter().chain(tail.iter()) {
        assert!(s.abs() < 1e-6, "Non-silent sample in silence resample: {s}");
    }
}

#[test]
fn process_non_multiple_of_chunk() {
    let mut r = rig(48000, 16000, 2, Quality::Fast).unwrap();
    let frames = 3000;
    let input = vec![0.0f32; frames * 2];
    let output = r.process(&input).unwrap();
    let tail = r.flush();
    let total_frames = (output.len() + tail.len()) / 2;
    let expected = r.state.output_frames_estimate(frames);
    assert!(
        (total_frames as f64 - expected as f64).abs() / expected as f64 <= 0.2,
        "Output frame count {total_frames} too far from estimate {expected}"
    );
}

#[test]
fn reset_clears_state() {
    let mut r = rig(44100, 48000, 1, Quality::Fast).unwrap();
    let _ = r.process(&vec![0.5f32; 500]).unwrap();
    r.engine.reset();
    r.state.reset();
    let tail = r.flush();
    assert!(tail.is_empty());
}

#[test]
fn channel_mismatch_rejected() {
    let mut r = rig(44100, 48000, 2, Quality::Fast).unwrap();
    let result = r.process(&[1.0, 2.0, 3.0]);
    assert!(result.is_none());
}
