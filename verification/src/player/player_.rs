//! The control surface of an open file: play, pause, stop and seek, and the
//! state machine behind them.

use vstd::prelude::*;
use vstd::arithmetic::div_mod::lemma_fundamental_div_mod_converse;
use vstd::string::StringExecFns;
use crate::player::command::{CommandGo, CommandUi, PlayerState};
use crate::player::consts::{AV_TIME_BASE, MAX_DIFF_MOVE_MOUSE};
use crate::player::kits::{
    av_time_base_rational, millisecond_approx_eq, millisecond_distance, timestamp_to_millisecond,
    timestamp_to_millisecond_spec,
};
use crate::player::play_ctrl::PlayCtrl;
use crate::player::time_base::Rational;

verus! {

/// Why a file cannot be played.
#[derive(PartialEq, Eq, Structural, Clone, Copy, Debug)]
pub enum PlayerError {
    /// The file has neither an audio nor a video stream.
    StreamNotFound,
}

/// The video stream chosen for playback.
#[derive(Clone, Copy, Debug)]
pub struct VideoStreamInfo {
    pub index: usize,
    pub time_base: Rational,
    pub width: u32,
    pub height: u32,
}

/// The audio stream chosen for playback.
#[derive(Clone, Copy, Debug)]
pub struct AudioStreamInfo {
    pub index: usize,
    pub time_base: Rational,
}

/// What probing a file found.
#[derive(Clone, Copy, Debug)]
pub struct MediaInfo {
    /// Length in ticks of the container clock.
    pub duration: i64,
    pub video: Option<VideoStreamInfo>,
    pub audio: Option<AudioStreamInfo>,
}

/// Where a seek may land: anywhere up to the end of the file, and not
/// before its start.
pub open spec fn clamp_seek_spec(target: i64, duration: i64) -> i64 {
    if target > duration {
        duration
    } else if target < 1 {
        0
    } else {
        target
    }
}

pub fn clamp_seek(target: i64, duration: i64) -> (position: i64)
    ensures
        position == clamp_seek_spec(target, duration),
        0 <= duration ==> 0 <= position <= duration,
{
    if target > duration {
        duration
    } else if target < 1 {
        0
    } else {
        target
    }
}

/// A time in milliseconds as a position in ticks of the container clock;
/// times before the start count as the start, and positions past the last
/// tick that can be written count as that tick.
pub open spec fn millisecond_position_spec(ms: int) -> i64 {
    if ms <= 0 {
        0
    } else if ms * 1000 > i64::MAX {
        i64::MAX
    } else {
        (ms * 1000) as i64
    }
}

/// The position of `elapsed_ms + ms`, see [`millisecond_position_spec`].
pub fn go_ms_position(elapsed_ms: i64, ms: i64) -> (position: i64)
    ensures
        position == millisecond_position_spec(elapsed_ms + ms),
{
    let target: i128 = elapsed_ms as i128 + ms as i128;
    if target <= 0 {
        0
    } else if target * 1000 > i64::MAX as i128 {
        i64::MAX
    } else {
        (target * 1000) as i64
    }
}

/// Times of day are written for this many milliseconds either side of
/// the start of 1970, which is as far as the calendar in use reaches safely.
pub const CLOCK_TEXT_LIMIT: i64 = 8_000_000_000_000_000;

/// The second of the day that lies `ms` milliseconds after midnight of the
/// first day of 1970.
pub open spec fn second_of_day(ms: i64) -> int {
    (ms as int / 1000) % 86400
}

pub open spec fn digit_char(d: int) -> char {
    seq!['0', '1', '2', '3', '4', '5', '6', '7', '8', '9'][d]
}

/// A number below one hundred in two digits.
pub open spec fn two_digits(n: int) -> Seq<char> {
    seq![digit_char(n / 10), digit_char(n % 10)]
}

/// Hours, minutes and seconds of the time of day, as `HH:MM:SS`.
pub open spec fn hms_text(ms: i64) -> Seq<char> {
    let s = second_of_day(ms);
    two_digits(s / 3600) + seq![':'] + two_digits((s / 60) % 60) + seq![':'] + two_digits(s % 60)
}

/// Minutes and seconds of the time of day, as `MM:SS`.
pub open spec fn ms_text(ms: i64) -> Seq<char> {
    let s = second_of_day(ms);
    two_digits((s / 60) % 60) + seq![':'] + two_digits(s % 60)
}

/// A length of time as text: with hours once there is a full hour.
pub open spec fn duration_text_spec(ms: i64) -> Seq<char> {
    if second_of_day(ms) / 3600 > 0 {
        hms_text(ms)
    } else {
        ms_text(ms)
    }
}

/// `chrono`: the instant `ms` milliseconds from the start of 1970 in UTC
/// (`DateTime::from`, `TimeDelta::milliseconds`, `DateTime + TimeDelta`),
/// written with `DateTime::format` and one of two patterns. The contract
/// claims that `%H`, `%M` and `%S` give hour, minute and second of the time
/// of day in two digits each, and that nothing else is added.
#[verifier::external_body]
fn clock_text(ms: i64, pattern: &str) -> (text: String)
    requires
        -CLOCK_TEXT_LIMIT <= ms <= CLOCK_TEXT_LIMIT,
        pattern@ == "%H:%M:%S"@ || pattern@ == "%M:%S"@,
    ensures
        pattern@ == "%H:%M:%S"@ ==> text@ == hms_text(ms),
        pattern@ == "%M:%S"@ ==> text@ == ms_text(ms),
{
    let dt = chrono::DateTime::<chrono::Utc>::from(std::time::UNIX_EPOCH)
        + chrono::TimeDelta::milliseconds(ms);
    dt.format(pattern).to_string()
}

/// Computes [`second_of_day`].
pub fn second_of_day_of(ms: i64) -> (s: i64)
    ensures
        s == second_of_day(ms),
        0 <= s < 86400,
{
    let secs: i64 = if ms >= 0 {
        ms / 1000
    } else {
        let up: i64 = ((-(ms + 1)) / 1000) + 1;
        proof {
            let n = -(ms as int + 1);
            let q = n / 1000;
            let r = n % 1000;
            vstd::arithmetic::div_mod::lemma_fundamental_div_mod(n, 1000);
            assert(ms as int == (-(q + 1)) * 1000 + (999 - r));
            lemma_fundamental_div_mod_converse(ms as int, 1000, -(q + 1), 999 - r);
        }
        -up
    };
    assert(secs == ms as int / 1000);
    if secs >= 0 {
        secs % 86400
    } else {
        let back: i64 = (-(secs + 1)) % 86400;
        proof {
            let n = -(secs as int + 1);
            let q = n / 86400;
            let r = n % 86400;
            vstd::arithmetic::div_mod::lemma_fundamental_div_mod(n, 86400);
            assert(secs as int == (-(q + 1)) * 86400 + (86399 - r));
            lemma_fundamental_div_mod_converse(secs as int, 86400, -(q + 1), 86399 - r);
        }
        86399 - back
    }
}

/// The state to go back to after a seek that was asked for in `state`,
/// when `remembered` is what an earlier seek, still under way, had found.
pub open spec fn pre_seek_of(state: PlayerState, remembered: Option<PlayerState>) -> PlayerState {
    match state {
        PlayerState::Seeking(_) => match remembered {
            Some(s) => s,
            None => PlayerState::Playing,
        },
        PlayerState::Paused => PlayerState::Paused,
        _ => PlayerState::Playing,
    }
}

/// Whether entering `state` calls for the audio output to be resumed.
pub open spec fn resumes_audio(state: PlayerState) -> bool {
    state == PlayerState::Playing || state == PlayerState::Restarting
}

/// The control surface of one open file.
#[derive(Clone, Copy, Debug)]
pub struct Player {
    pub play_ctrl: PlayCtrl,
    pub width: u32,
    pub height: u32,
    /// Target, in milliseconds, of the seek under way.
    pub last_seek_ms: Option<i64>,
    /// State to return to when the seek under way has settled.
    pub pre_seek_state: Option<PlayerState>,
    /// Position that the tab key jumps to, in milliseconds; none at zero.
    pub tab_seek_ms: i64,
    /// When the pointer last moved, in milliseconds of wall time.
    pub mouth_move_ts: i64,
    pub command_ui: CommandUi,
}

impl Player {
    /// The player as it is right after its file was opened.
    pub open spec fn opened(media: MediaInfo, command_ui: CommandUi, now_ms: i64) -> Player {
        Player {
            play_ctrl: PlayCtrl::initial(
                media.duration,
                match media.video {
                    Some(v) => Some(v.time_base),
                    None => None,
                },
                match media.audio {
                    Some(a) => Some(a.time_base),
                    None => None,
                },
            ),
            width: match media.video {
                Some(v) => v.width,
                None => 0,
            },
            height: match media.video {
                Some(v) => v.height,
                None => 0,
            },
            last_seek_ms: None,
            pre_seek_state: None,
            tab_seek_ms: 0,
            mouth_move_ts: now_ms,
            command_ui,
        }
    }

    /// The player with its state changed to `state`.
    pub open spec fn with_state(self, state: PlayerState) -> Player {
        Player { play_ctrl: PlayCtrl { player_state: state, ..self.play_ctrl }, ..self }
    }

    /// The player after a seek to `target` was asked for.
    pub open spec fn after_seek(self, target: i64) -> Player {
        Player {
            play_ctrl: PlayCtrl {
                player_state: PlayerState::Seeking(true),
                command_go: CommandGo::Seek(target),
                ..self.play_ctrl
            },
            last_seek_ms: Some(
                timestamp_to_millisecond_spec(
                    clamp_seek_spec(target, self.play_ctrl.duration),
                    av_time_base_rational(),
                ),
            ),
            pre_seek_state: Some(pre_seek_of(self.play_ctrl.player_state, self.pre_seek_state)),
            ..self
        }
    }

    /// The player after both clocks were put back and a seek to the start
    /// was asked for.
    pub open spec fn after_reset(self) -> Player {
        (Player {
            play_ctrl: PlayCtrl {
                audio_clock: self.play_ctrl.audio_clock.cleared(),
                video_clock: self.play_ctrl.video_clock.cleared(),
                ..self.play_ctrl
            },
            ..self
        }).after_seek(0)
    }

    /// The player after the user interface looked at its state once.
    pub open spec fn after_process_state(self) -> Player {
        match self.play_ctrl.player_state {
            PlayerState::EndOfFile => self.with_state(PlayerState::Stopped),
            PlayerState::Seeking(false) => Player {
                play_ctrl: PlayCtrl {
                    player_state: pre_seek_of(PlayerState::Seeking(false), self.pre_seek_state),
                    video_elapsed_ms_override: -1i64,
                    ..self.play_ctrl
                },
                last_seek_ms: None,
                pre_seek_state: None,
                ..self
            },
            PlayerState::Seeking(true) => match self.last_seek_ms {
                Some(target) => Player {
                    play_ctrl: PlayCtrl {
                        player_state: PlayerState::Seeking(
                            !(millisecond_distance(self.play_ctrl.video_elapsed_ms, target) < 50),
                        ),
                        video_elapsed_ms_override: target,
                        ..self.play_ctrl
                    },
                    ..self
                },
                None => Player {
                    play_ctrl: PlayCtrl { video_elapsed_ms_override: -1i64, ..self.play_ctrl },
                    ..self
                },
            },
            PlayerState::Restarting => self.after_reset(),
            _ => self,
        }
    }

    /// Sets up the control surface for a probed file. Fails exactly when
    /// the file has no stream to play.
    pub fn new(media: &MediaInfo, command_ui: CommandUi, now_ms: i64) -> (r: Result<
        Player,
        PlayerError,
    >)
        ensures
            (media.video is None && media.audio is None) ==> r == Err::<Player, PlayerError>(
                PlayerError::StreamNotFound,
            ),
            !(media.video is None && media.audio is None) ==> r == Ok::<Player, PlayerError>(
                Self::opened(*media, command_ui, now_ms),
            ),
    {
        if media.video.is_none() && media.audio.is_none() {
            return Err(PlayerError::StreamNotFound);
        }
        let (video_time_base, width, height) = match media.video {
            Some(v) => (Some(v.time_base), v.width, v.height),
            None => (None, 0, 0),
        };
        let audio_time_base = match media.audio {
            Some(a) => Some(a.time_base),
            None => None,
        };
        Ok(
            Player {
                play_ctrl: PlayCtrl::new(media.duration, video_time_base, audio_time_base),
                width,
                height,
                last_seek_ms: None,
                pre_seek_state: None,
                tab_seek_ms: 0,
                mouth_move_ts: now_ms,
                command_ui,
            },
        )
    }

    /// Changes the state. Returns whether the audio output is to be resumed.
    pub fn set_state(&mut self, new_state: PlayerState) -> (resume_audio: bool)
        ensures
            *final(self) == old(self).with_state(new_state),
            resume_audio == resumes_audio(new_state),
    {
        self.play_ctrl.player_state = new_state;
        match new_state {
            PlayerState::Playing => true,
            PlayerState::Restarting => true,
            _ => false,
        }
    }

    pub fn start(&mut self) -> (resume_audio: bool)
        ensures
            *final(self) == old(self).with_state(PlayerState::Playing),
            resume_audio,
    {
        self.resume()
    }

    pub fn pause(&mut self) -> (resume_audio: bool)
        ensures
            *final(self) == old(self).with_state(PlayerState::Paused),
            !resume_audio,
    {
        self.set_state(PlayerState::Paused)
    }

    pub fn resume(&mut self) -> (resume_audio: bool)
        ensures
            *final(self) == old(self).with_state(PlayerState::Playing),
            resume_audio,
    {
        self.set_state(PlayerState::Playing)
    }

    pub fn stop(&mut self) -> (resume_audio: bool)
        ensures
            *final(self) == old(self).with_state(PlayerState::Stopped),
            !resume_audio,
    {
        self.set_state(PlayerState::Stopped)
    }

    /// Asks for a seek to `frame_number`, a position in ticks of the
    /// container clock: the command is left for the packet reader, the state
    /// becomes `Seeking(true)`, and the state to return to and the target in
    /// milliseconds are remembered.
    pub fn seek(&mut self, frame_number: i64)
        ensures
            *final(self) == old(self).after_seek(frame_number),
    {
        let back_to = match self.play_ctrl.player_state {
            PlayerState::Seeking(_) => match self.pre_seek_state {
                Some(s) => s,
                None => PlayerState::Playing,
            },
            PlayerState::Paused => PlayerState::Paused,
            _ => PlayerState::Playing,
        };
        let position = clamp_seek(frame_number, self.play_ctrl.duration);
        self.last_seek_ms = Some(
            timestamp_to_millisecond(position, Rational { num: 1, den: AV_TIME_BASE }),
        );
        self.pre_seek_state = Some(back_to);
        self.play_ctrl.command_go = CommandGo::Seek(frame_number);
        self.play_ctrl.player_state = PlayerState::Seeking(true);
    }

    /// Seeks to the position of the tab key, if one is set.
    pub fn tab_seek(&mut self)
        ensures
            old(self).tab_seek_ms > 0 ==> *final(self) == old(self).after_seek(
                millisecond_position_spec(old(self).tab_seek_ms as int),
            ),
            old(self).tab_seek_ms <= 0 ==> *final(self) == *old(self),
    {
        if self.tab_seek_ms > 0 {
            let seek_pos = go_ms_position(self.tab_seek_ms, 0);
            self.seek(seek_pos);
        }
    }

    /// Puts both clocks back to zero and seeks to the start.
    pub fn reset(&mut self)
        ensures
            *final(self) == old(self).after_reset(),
    {
        self.play_ctrl.audio_clock.reset();
        self.play_ctrl.video_clock.reset();
        self.seek(0);
    }

    /// A click on the picture: starts a stopped player, resumes a paused
    /// one, pauses a playing one, and leaves any other alone.
    pub fn clicked_player(&mut self) -> (resume_audio: bool)
        ensures
            *final(self) == match old(self).play_ctrl.player_state {
                PlayerState::Stopped => old(self).with_state(PlayerState::Playing),
                PlayerState::Paused => old(self).with_state(PlayerState::Playing),
                PlayerState::Playing => old(self).with_state(PlayerState::Paused),
                _ => *old(self),
            },
            resume_audio == (old(self).play_ctrl.player_state == PlayerState::Stopped || old(
                self,
            ).play_ctrl.player_state == PlayerState::Paused),
    {
        match self.play_ctrl.player_state {
            PlayerState::Stopped => self.start(),
            PlayerState::Paused => self.resume(),
            PlayerState::Playing => self.pause(),
            _ => false,
        }
    }

    /// Leaves the command chosen in the user interface for the workers.
    pub fn go_ahead_ui(&mut self, command_go_ui: CommandGo)
        ensures
            *final(self) == (Player {
                play_ctrl: PlayCtrl { command_go: command_go_ui, ..old(self).play_ctrl },
                ..*old(self)
            }),
    {
        self.play_ctrl.command_go = command_go_ui;
    }

    /// Leaves the command chosen in the user interface for the workers,
    /// turned round. A seek has no direction: it leaves the pending command
    /// as it is.
    pub fn go_back_ui(&mut self, command_go_ui: CommandGo)
        requires
            Self::can_reverse(command_go_ui),
        ensures
            *final(self) == (Player {
                play_ctrl: PlayCtrl {
                    command_go: Self::reversed(command_go_ui, old(self).play_ctrl.command_go),
                    ..old(self).play_ctrl
                },
                ..*old(self)
            }),
    {
        match command_go_ui {
            CommandGo::Frame(t) => {
                self.play_ctrl.command_go = CommandGo::Frame(-t);
            },
            CommandGo::Packet(t) => {
                self.play_ctrl.command_go = CommandGo::Packet(-t);
            },
            CommandGo::GoMs(t) => {
                self.play_ctrl.command_go = CommandGo::GoMs(-t);
            },
            CommandGo::NoCommand => {
                self.play_ctrl.command_go = CommandGo::NoCommand;
            },
            CommandGo::Seek(_) => {},
        }
    }

    /// Whether the opposite of the command's count or time can be written.
    pub open spec fn can_reverse(command: CommandGo) -> bool {
        match command {
            CommandGo::Frame(t) => t != i32::MIN,
            CommandGo::Packet(t) => t != i32::MIN,
            CommandGo::GoMs(t) => t != i64::MIN,
            _ => true,
        }
    }

    /// The command that [`Player::go_back_ui`] leaves for `command` when
    /// `pending` was waiting.
    pub open spec fn reversed(command: CommandGo, pending: CommandGo) -> CommandGo {
        match command {
            CommandGo::Frame(t) => CommandGo::Frame((-t) as i32),
            CommandGo::Packet(t) => CommandGo::Packet((-t) as i32),
            CommandGo::GoMs(t) => CommandGo::GoMs((-t) as i64),
            CommandGo::NoCommand => CommandGo::NoCommand,
            CommandGo::Seek(_) => pending,
        }
    }

    /// Tests [`Player::can_reverse`].
    pub fn reversible(command: CommandGo) -> (ok: bool)
        ensures
            ok == Self::can_reverse(command),
    {
        match command {
            CommandGo::Frame(t) => t != i32::MIN,
            CommandGo::Packet(t) => t != i32::MIN,
            CommandGo::GoMs(t) => t != i64::MIN,
            _ => true,
        }
    }

    pub fn get_mute(&self) -> (mute: bool)
        ensures
            mute == self.play_ctrl.mute,
    {
        self.play_ctrl.get_mute()
    }

    pub fn set_mute(&mut self, mute: bool)
        ensures
            *final(self) == (Player {
                play_ctrl: PlayCtrl { mute, ..old(self).play_ctrl },
                ..*old(self)
            }),
    {
        self.play_ctrl.set_mute(mute);
    }

    /// Whether the pointer moved recently enough for the status bar to show.
    pub fn show_seekbar(&self, now_ms: i64) -> (show: bool)
        ensures
            show == (now_ms - self.mouth_move_ts < MAX_DIFF_MOVE_MOUSE),
    {
        (now_ms as i128) - (self.mouth_move_ts as i128) < MAX_DIFF_MOVE_MOUSE as i128
    }

    /// A length of time as text, `MM:SS`, or `HH:MM:SS` from one hour on.
    pub fn format_duration(ms: i64) -> (text: String)
        requires
            -CLOCK_TEXT_LIMIT <= ms <= CLOCK_TEXT_LIMIT,
        ensures
            text@ == duration_text_spec(ms),
    {
        if second_of_day_of(ms) / 3600 > 0 {
            clock_text(ms, "%H:%M:%S")
        } else {
            clock_text(ms, "%M:%S")
        }
    }

    /// Whether the elapsed time and the length of the file can be written
    /// as times of day.
    pub open spec fn has_duration_text(self) -> bool {
        &&& -CLOCK_TEXT_LIMIT <= self.play_ctrl.elapsed_ms_spec() <= CLOCK_TEXT_LIMIT
        &&& -CLOCK_TEXT_LIMIT <= self.play_ctrl.duration_ms <= CLOCK_TEXT_LIMIT
    }

    /// Tests [`Player::has_duration_text`].
    pub fn can_show_duration(&self) -> (ok: bool)
        ensures
            ok == self.has_duration_text(),
    {
        let elapsed = self.play_ctrl.elapsed_ms();
        -CLOCK_TEXT_LIMIT <= elapsed && elapsed <= CLOCK_TEXT_LIMIT && -CLOCK_TEXT_LIMIT
            <= self.play_ctrl.duration_ms && self.play_ctrl.duration_ms <= CLOCK_TEXT_LIMIT
    }

    /// The elapsed time and the length of the file, as shown under the picture.
    pub fn duration_text(&self) -> (text: String)
        requires
            self.has_duration_text(),
        ensures
            text@ == duration_text_spec(self.play_ctrl.elapsed_ms_spec()) + " / "@
                + duration_text_spec(self.play_ctrl.duration_ms),
    {
        let elapsed = Self::format_duration(self.play_ctrl.elapsed_ms());
        let total = Self::format_duration(self.play_ctrl.duration_ms);
        elapsed.concat(" / ").concat(total.as_str())
    }

    /// One look of the user interface at the state: the end of the file
    /// becomes a stop; a seek under way shows its target as the elapsed time
    /// and settles once the video is within fifty milliseconds of it; a
    /// settled seek gives way to the state it interrupted; a restart puts
    /// the clocks back and seeks to the start. Returns whether the audio
    /// output is to be resumed.
    pub fn process_state(&mut self) -> (resume_audio: bool)
        ensures
            *final(self) == old(self).after_process_state(),
            resume_audio == (old(self).play_ctrl.player_state == PlayerState::Seeking(false)
                && resumes_audio(final(self).play_ctrl.player_state)),
    {
        match self.play_ctrl.player_state {
            PlayerState::EndOfFile => {
                self.play_ctrl.player_state = PlayerState::Stopped;
                false
            },
            PlayerState::Stopped => false,
            PlayerState::Seeking(seek_in_progress) => {
                if !seek_in_progress {
                    let back_to = match self.pre_seek_state {
                        Some(s) => s,
                        None => PlayerState::Playing,
                    };
                    self.play_ctrl.video_elapsed_ms_override = -1;
                    self.last_seek_ms = None;
                    self.pre_seek_state = None;
                    self.set_state(back_to)
                } else {
                    match self.last_seek_ms {
                        Some(last_seek_ms) => {
                            self.play_ctrl.video_elapsed_ms_override = last_seek_ms;
                            if millisecond_approx_eq(self.play_ctrl.video_elapsed_ms, last_seek_ms) {
                                self.play_ctrl.player_state = PlayerState::Seeking(false);
                            }
                        },
                        None => {
                            self.play_ctrl.video_elapsed_ms_override = -1;
                        },
                    }
                    false
                }
            },
            PlayerState::Restarting => {
                self.reset();
                false
            },
            _ => false,
        }
    }
}

/// A seek runs its course. Asked for in any state, it makes the state
/// `Seeking(true)` and shows its target as the elapsed time. The first look
/// after the video has come within fifty milliseconds of the target makes
/// the state `Seeking(false)`, and the look after that gives back the state
/// that the seek interrupted: paused if the player was paused, playing
/// otherwise, or what an earlier seek, still under way, had interrupted.
pub proof fn lemma_seek_runs_its_course(player: Player, target: i64, video_elapsed_ms: i64)
    requires
        millisecond_distance(
            video_elapsed_ms,
            timestamp_to_millisecond_spec(
                clamp_seek_spec(target, player.play_ctrl.duration),
                av_time_base_rational(),
            ),
        ) < 50,
    ensures
        ({
            let target_ms = timestamp_to_millisecond_spec(
                clamp_seek_spec(target, player.play_ctrl.duration),
                av_time_base_rational(),
            );
            let asked = player.after_seek(target);
            let caught_up = Player {
                play_ctrl: PlayCtrl { video_elapsed_ms, ..asked.play_ctrl },
                ..asked
            };
            let settled = caught_up.after_process_state();
            let done = settled.after_process_state();
            &&& asked.play_ctrl.player_state == PlayerState::Seeking(true)
            &&& asked.play_ctrl.command_go == CommandGo::Seek(target)
            &&& asked.after_process_state().play_ctrl.video_elapsed_ms_override == target_ms
            &&& settled.play_ctrl.player_state == PlayerState::Seeking(false)
            &&& done.play_ctrl.player_state == pre_seek_of(
                player.play_ctrl.player_state,
                player.pre_seek_state,
            )
            &&& done.play_ctrl.video_elapsed_ms_override == -1
            &&& done.play_ctrl.elapsed_ms_spec() == video_elapsed_ms
            &&& done.last_seek_ms is None
            &&& done.pre_seek_state is None
        }),
{
}

/// While a seek is under way and the video is still fifty milliseconds or
/// more from the target, a look changes nothing but the time shown.
pub proof fn lemma_seek_waits_for_the_video(player: Player, target_ms: i64)
    requires
        player.play_ctrl.player_state == PlayerState::Seeking(true),
        player.last_seek_ms == Some(target_ms),
        millisecond_distance(player.play_ctrl.video_elapsed_ms, target_ms) >= 50,
    ensures
        player.after_process_state() == (Player {
            play_ctrl: PlayCtrl { video_elapsed_ms_override: target_ms, ..player.play_ctrl },
            ..player
        }),
{
}

} // verus!
