//! The `ASnative(5, N)` vendor-function table: index names, how each index
//! is served, and the pure natives (base64, path joining) computed in-table.

use vstd::prelude::*;
use crate::path::{components, path_components, slash_join};
use crate::text::{chars_of, push_all, string_of};

verus! {

/// The panel's own wrapper name for each bound index (`_unknown` for an
/// unbound one), as the control panel binds them at startup.
pub open spec fn native_name(index: u16) -> Seq<char> {
    match index {
        10 => "_rawX"@,
        11 => "_rawY"@,
        12 => "_setCalibration"@,
        13 => "_writeCalibration"@,
        14 => "_bendLevel"@,
        15 => "_lightLevel"@,
        16 => "_dcVolts"@,
        17 => "_getSpeakerMute"@,
        18 => "_setSpeakerMute"@,
        19 => "_getLCDMute"@,
        20 => "_setLCDMute"@,
        21 => "_getLCDBrightness"@,
        22 => "_setLCDBrightness"@,
        23 => "_getBrightnessThresholdForRange"@,
        24 => "_setBrightnessThresholdForRange"@,
        25 => "_bent"@,
        26 => "_getBendThreshold"@,
        27 => "_setBendThreshold"@,
        28 => "_bendAverage"@,
        38 => "_headphonesIn"@,
        39 => "_batteryVolts"@,
        40 => "_powerDown"@,
        41 => "_powerSource"@,
        42 => "_fscommand2"@,
        43 => "_getTouchClick"@,
        44 => "_setTouchClick"@,
        50 => "_getFile"@,
        51 => "_putFile"@,
        52 => "_backtick"@,
        53 => "_fileExists"@,
        54 => "_fileSize"@,
        55 => "_unlink"@,
        60 => "_accelerometer"@,
        61 => "_accelerometerSigned"@,
        70 => "_csccd"@,
        71 => "_gsccd"@,
        72 => "_slaveSetting72"@,
        74 => "_slaveSetting74"@,
        80 => "_setSlaveVar"@,
        81 => "_getSlaveVar"@,
        82 => "_routeUIEvents"@,
        83 => "_setDisplay"@,
        84 => "_startSlave"@,
        85 => "_stopSlave"@,
        86 => "_pauseResumeSlave"@,
        87 => "_getDefaultSlaveInstance"@,
        88 => "_getDisplay"@,
        89 => "_getSlaveLoadStatus"@,
        90 => "_getKeyboardEventMask"@,
        91 => "_hasKeyboard"@,
        92 => "_setKeyboardEventMask"@,
        93 => "_keyboardGetScanCode"@,
        94 => "_getMouseButtonState"@,
        95 => "_getNextMouseEvent"@,
        96 => "_getGamepadState"@,
        97 => "_getNextGamepadEvent"@,
        98 => "_getKeyEventOfferMask"@,
        99 => "_setKeyEventOfferMask"@,
        100 => "_expireCache"@,
        101 => "_expireCacheFiltered"@,
        110 => "_setOverlayVisibility"@,
        111 => "_getOverlayVisibility"@,
        112 => "_setOverlayBlendingEnabled"@,
        113 => "_getOverlayBlendingEnabled"@,
        114 => "_setOverlayChromaBlendingEnabled"@,
        115 => "_getOverlayChromaBlendingEnabled"@,
        116 => "_setOverlayChromaBlendColor"@,
        117 => "_getOverlayChromaBlendColor"@,
        118 => "_enableMasterUpdates"@,
        119 => "_enableSlaveUpdates"@,
        120 => "_exitOpportunity"@,
        121 => "_secondsBeforeRestart"@,
        122 => "_restartNow"@,
        130 => "_getAudioPlayerPID"@,
        131 => "_getAudioPlayerState"@,
        132 => "_pauseAudioPlayer"@,
        133 => "_resumeAudioPlayer"@,
        134 => "_stopAudioPlayer"@,
        135 => "_getAudioPlayerTrackAttributes"@,
        140 => "_isAudioPlayerAvailable"@,
        141 => "_terminateAudioPlayer"@,
        142 => "_startAudioPlayer"@,
        143 => "_restartAudioPlayer"@,
        144 => "_playAudio"@,
        145 => "_playAudioNext"@,
        146 => "_playAudioLoopCount"@,
        147 => "_skipAudioNext"@,
        148 => "_skipAudioPrev"@,
        149 => "_playAudioAddPlaylist"@,
        150 => "_playAudioResetPlaylist"@,
        151 => "_playAudioNow"@,
        152 => "_sendMediaPlayerCommand"@,
        160 => "_base64Encode"@,
        161 => "_base64Decode"@,
        162 => "_md5Sum"@,
        163 => "_blowfishEncrypt"@,
        164 => "_blowfishDecrypt"@,
        170 => "_getstalt"@,
        172 => "_getNetworkConnectTimeout"@,
        173 => "_setNetworkConnectTimeout"@,
        174 => "_getNetworkTimeout"@,
        175 => "_setNetworkTimeout"@,
        176 => "_setSystemTime"@,
        177 => "_getTimeZone"@,
        178 => "_setTimeZone"@,
        180 => "_getSystemVolume"@,
        181 => "_setSystemVolume"@,
        182 => "_getSystemBalance"@,
        183 => "_setSystemBalance"@,
        184 => "_getSystemMute"@,
        185 => "_setSystemMute"@,
        190 => "_pipeDaemon"@,
        191 => "_pipeOpen"@,
        192 => "_pipeSetInput"@,
        193 => "_pipeRead"@,
        194 => "_pipeWrite"@,
        195 => "_pipeClose"@,
        200 => "_getScreenWidth"@,
        201 => "_getScreenHeight"@,
        202 => "_getPlatform"@,
        203 => "_getUsingTsdev"@,
        204 => "_getTSCalibrationPath"@,
        205 => "_getEnvironment"@,
        207 => "_getpid"@,
        208 => "_getTotalPlayerMemory"@,
        209 => "_getFreePlayerMemory"@,
        210 => "_setSlaveAS3Var"@,
        211 => "_setURLEncodedVars"@,
        220 => "_enableMasterUpdatesPriv"@,
        300 => "_getBitmapSmoothing"@,
        301 => "_setBitmapSmoothing"@,
        320 => "_getDirectoryEntry"@,
        330 => "_slaveMouseDown"@,
        331 => "_slaveMouseMove"@,
        332 => "_slaveMouseUp"@,
        333 => "_getLastGesture"@,
        340 => "_pauseMediaPlayer"@,
        341 => "_resumeMediaPlayer"@,
        342 => "_stopMediaPlayer"@,
        360 => "_grantTempSlavePrivileges"@,
        361 => "_revokeTempSlavePrivileges"@,
        362 => "_grantSlavePrivileges"@,
        363 => "_revokeSlavePrivileges"@,
        364 => "_getEffectivePrivileges"@,
        370 => "_resetTransform"@,
        371 => "_addRotation"@,
        372 => "_addScale"@,
        373 => "_addTranslate"@,
        380 => "_setBackgroundAlpha"@,
        381 => "_getSWFDimensions"@,
        382 => "_mapMovieToViewportSpace"@,
        383 => "_mapViewportToMovieSpace"@,
        384 => "_fillFrameBufferPixels"@,
        385 => "_fillFrameBufferBytes"@,
        386 => "_setDisplayRect"@,
        387 => "_setDisplayRectEventTranslate"@,
        420 => "_SetOnLocationCallback"@,
        _ => "_unknown"@,
    }
}

/// Every bound index has a wrapper name of its own, and each starts with
/// `_`: dispatching a native by name never mistakes one index for another.
pub proof fn law_native_names_distinct(i: u16, j: u16)
    requires
        i != j,
        native_name(i) != "_unknown"@,
        native_name(j) != "_unknown"@,
    ensures
        native_name(i) != native_name(j),
        native_name(i).len() > 0 && native_name(i)[0] == '_',
{
    lemma_native_index(i);
    lemma_native_index(j);
    lemma_native_first(i);
}

proof fn lemma_native_first(i: u16)
    ensures
        native_name(i).len() > 0 && native_name(i)[0] == '_',
{
    reveal_strlit("_unknown");
    reveal_strlit("_rawX");
    reveal_strlit("_rawY");
    reveal_strlit("_setCalibration");
    reveal_strlit("_writeCalibration");
    reveal_strlit("_bendLevel");
    reveal_strlit("_lightLevel");
    reveal_strlit("_dcVolts");
    reveal_strlit("_getSpeakerMute");
    reveal_strlit("_setSpeakerMute");
    reveal_strlit("_getLCDMute");
    reveal_strlit("_setLCDMute");
    reveal_strlit("_getLCDBrightness");
    reveal_strlit("_setLCDBrightness");
    reveal_strlit("_getBrightnessThresholdForRange");
    reveal_strlit("_setBrightnessThresholdForRange");
    reveal_strlit("_bent");
    reveal_strlit("_getBendThreshold");
    reveal_strlit("_setBendThreshold");
    reveal_strlit("_bendAverage");
    reveal_strlit("_headphonesIn");
    reveal_strlit("_batteryVolts");
    reveal_strlit("_powerDown");
    reveal_strlit("_powerSource");
    reveal_strlit("_fscommand2");
    reveal_strlit("_getTouchClick");
    reveal_strlit("_setTouchClick");
    reveal_strlit("_getFile");
    reveal_strlit("_putFile");
    reveal_strlit("_backtick");
    reveal_strlit("_fileExists");
    reveal_strlit("_fileSize");
    reveal_strlit("_unlink");
    reveal_strlit("_accelerometer");
    reveal_strlit("_accelerometerSigned");
    reveal_strlit("_csccd");
    reveal_strlit("_gsccd");
    reveal_strlit("_slaveSetting72");
    reveal_strlit("_slaveSetting74");
    reveal_strlit("_setSlaveVar");
    reveal_strlit("_getSlaveVar");
    reveal_strlit("_routeUIEvents");
    reveal_strlit("_setDisplay");
    reveal_strlit("_startSlave");
    reveal_strlit("_stopSlave");
    reveal_strlit("_pauseResumeSlave");
    reveal_strlit("_getDefaultSlaveInstance");
    reveal_strlit("_getDisplay");
    reveal_strlit("_getSlaveLoadStatus");
    reveal_strlit("_getKeyboardEventMask");
    reveal_strlit("_hasKeyboard");
    reveal_strlit("_setKeyboardEventMask");
    reveal_strlit("_keyboardGetScanCode");
    reveal_strlit("_getMouseButtonState");
    reveal_strlit("_getNextMouseEvent");
    reveal_strlit("_getGamepadState");
    reveal_strlit("_getNextGamepadEvent");
    reveal_strlit("_getKeyEventOfferMask");
    reveal_strlit("_setKeyEventOfferMask");
    reveal_strlit("_expireCache");
    reveal_strlit("_expireCacheFiltered");
    reveal_strlit("_setOverlayVisibility");
    reveal_strlit("_getOverlayVisibility");
    reveal_strlit("_setOverlayBlendingEnabled");
    reveal_strlit("_getOverlayBlendingEnabled");
    reveal_strlit("_setOverlayChromaBlendingEnabled");
    reveal_strlit("_getOverlayChromaBlendingEnabled");
    reveal_strlit("_setOverlayChromaBlendColor");
    reveal_strlit("_getOverlayChromaBlendColor");
    reveal_strlit("_enableMasterUpdates");
    reveal_strlit("_enableSlaveUpdates");
    reveal_strlit("_exitOpportunity");
    reveal_strlit("_secondsBeforeRestart");
    reveal_strlit("_restartNow");
    reveal_strlit("_getAudioPlayerPID");
    reveal_strlit("_getAudioPlayerState");
    reveal_strlit("_pauseAudioPlayer");
    reveal_strlit("_resumeAudioPlayer");
    reveal_strlit("_stopAudioPlayer");
    reveal_strlit("_getAudioPlayerTrackAttributes");
    reveal_strlit("_isAudioPlayerAvailable");
    reveal_strlit("_terminateAudioPlayer");
    reveal_strlit("_startAudioPlayer");
    reveal_strlit("_restartAudioPlayer");
    reveal_strlit("_playAudio");
    reveal_strlit("_playAudioNext");
    reveal_strlit("_playAudioLoopCount");
    reveal_strlit("_skipAudioNext");
    reveal_strlit("_skipAudioPrev");
    reveal_strlit("_playAudioAddPlaylist");
    reveal_strlit("_playAudioResetPlaylist");
    reveal_strlit("_playAudioNow");
    reveal_strlit("_sendMediaPlayerCommand");
    reveal_strlit("_base64Encode");
    reveal_strlit("_base64Decode");
    reveal_strlit("_md5Sum");
    reveal_strlit("_blowfishEncrypt");
    reveal_strlit("_blowfishDecrypt");
    reveal_strlit("_getstalt");
    reveal_strlit("_getNetworkConnectTimeout");
    reveal_strlit("_setNetworkConnectTimeout");
    reveal_strlit("_getNetworkTimeout");
    reveal_strlit("_setNetworkTimeout");
    reveal_strlit("_setSystemTime");
    reveal_strlit("_getTimeZone");
    reveal_strlit("_setTimeZone");
    reveal_strlit("_getSystemVolume");
    reveal_strlit("_setSystemVolume");
    reveal_strlit("_getSystemBalance");
    reveal_strlit("_setSystemBalance");
    reveal_strlit("_getSystemMute");
    reveal_strlit("_setSystemMute");
    reveal_strlit("_pipeDaemon");
    reveal_strlit("_pipeOpen");
    reveal_strlit("_pipeSetInput");
    reveal_strlit("_pipeRead");
    reveal_strlit("_pipeWrite");
    reveal_strlit("_pipeClose");
    reveal_strlit("_getScreenWidth");
    reveal_strlit("_getScreenHeight");
    reveal_strlit("_getPlatform");
    reveal_strlit("_getUsingTsdev");
    reveal_strlit("_getTSCalibrationPath");
    reveal_strlit("_getEnvironment");
    reveal_strlit("_getpid");
    reveal_strlit("_getTotalPlayerMemory");
    reveal_strlit("_getFreePlayerMemory");
    reveal_strlit("_setSlaveAS3Var");
    reveal_strlit("_setURLEncodedVars");
    reveal_strlit("_enableMasterUpdatesPriv");
    reveal_strlit("_getBitmapSmoothing");
    reveal_strlit("_setBitmapSmoothing");
    reveal_strlit("_getDirectoryEntry");
    reveal_strlit("_slaveMouseDown");
    reveal_strlit("_slaveMouseMove");
    reveal_strlit("_slaveMouseUp");
    reveal_strlit("_getLastGesture");
    reveal_strlit("_pauseMediaPlayer");
    reveal_strlit("_resumeMediaPlayer");
    reveal_strlit("_stopMediaPlayer");
    reveal_strlit("_grantTempSlavePrivileges");
    reveal_strlit("_revokeTempSlavePrivileges");
    reveal_strlit("_grantSlavePrivileges");
    reveal_strlit("_revokeSlavePrivileges");
    reveal_strlit("_getEffectivePrivileges");
    reveal_strlit("_resetTransform");
    reveal_strlit("_addRotation");
    reveal_strlit("_addScale");
    reveal_strlit("_addTranslate");
    reveal_strlit("_setBackgroundAlpha");
    reveal_strlit("_getSWFDimensions");
    reveal_strlit("_mapMovieToViewportSpace");
    reveal_strlit("_mapViewportToMovieSpace");
    reveal_strlit("_fillFrameBufferPixels");
    reveal_strlit("_fillFrameBufferBytes");
    reveal_strlit("_setDisplayRect");
    reveal_strlit("_setDisplayRectEventTranslate");
    reveal_strlit("_SetOnLocationCallback");
}

/// The index whose wrapper name `name` is, told apart by its length and a
/// few of its characters; -1 for a name that is none of them.
spec fn native_index(name: Seq<char>) -> int {
    if name.len() == 5 && name[1] == 'r' && name[2] == 'a' && name[3] == 'w' && name[4] == 'X' {
        10
    } else if name.len() == 5 && name[1] == 'r' && name[2] == 'a' && name[3] == 'w' && name[4] == 'Y' {
        11
    } else if name.len() == 15 && name[1] == 's' && name[2] == 'e' && name[3] == 't' && name[4] == 'C' && name[5] == 'a' && name[6] == 'l' && name[7] == 'i' && name[9] == 'r' && name[10] == 'a' && name[11] == 't' && name[14] == 'n' {
        12
    } else if name.len() == 17 && name[1] == 'w' && name[2] == 'r' && name[3] == 'i' && name[4] == 't' && name[5] == 'e' && name[6] == 'C' && name[7] == 'a' && name[9] == 'i' && name[10] == 'b' && name[11] == 'r' && name[14] == 'i' {
        13
    } else if name.len() == 10 && name[1] == 'b' && name[2] == 'e' && name[3] == 'n' && name[4] == 'd' && name[5] == 'L' && name[6] == 'e' && name[7] == 'v' && name[9] == 'l' {
        14
    } else if name.len() == 11 && name[1] == 'l' && name[2] == 'i' && name[3] == 'g' && name[4] == 'h' && name[5] == 't' && name[6] == 'L' && name[7] == 'e' && name[9] == 'e' && name[10] == 'l' {
        15
    } else if name.len() == 8 && name[1] == 'd' && name[2] == 'c' && name[3] == 'V' && name[4] == 'o' && name[5] == 'l' && name[6] == 't' && name[7] == 's' {
        16
    } else if name.len() == 15 && name[1] == 'g' && name[2] == 'e' && name[3] == 't' && name[4] == 'S' && name[5] == 'p' && name[6] == 'e' && name[7] == 'a' && name[9] == 'e' && name[10] == 'r' && name[11] == 'M' && name[14] == 'e' {
        17
    } else if name.len() == 15 && name[1] == 's' && name[2] == 'e' && name[3] == 't' && name[4] == 'S' && name[5] == 'p' && name[6] == 'e' && name[7] == 'a' && name[9] == 'e' && name[10] == 'r' && name[11] == 'M' && name[14] == 'e' {
        18
    } else if name.len() == 11 && name[1] == 'g' && name[2] == 'e' && name[3] == 't' && name[4] == 'L' && name[5] == 'C' && name[6] == 'D' && name[7] == 'M' && name[9] == 't' && name[10] == 'e' {
        19
    } else if name.len() == 11 && name[1] == 's' && name[2] == 'e' && name[3] == 't' && name[4] == 'L' && name[5] == 'C' && name[6] == 'D' && name[7] == 'M' && name[9] == 't' && name[10] == 'e' {
        20
    } else if name.len() == 17 && name[1] == 'g' && name[2] == 'e' && name[3] == 't' && name[4] == 'L' && name[5] == 'C' && name[6] == 'D' && name[7] == 'B' && name[9] == 'i' && name[10] == 'g' && name[11] == 'h' && name[14] == 'e' {
        21
    } else if name.len() == 17 && name[1] == 's' && name[2] == 'e' && name[3] == 't' && name[4] == 'L' && name[5] == 'C' && name[6] == 'D' && name[7] == 'B' && name[9] == 'i' && name[10] == 'g' && name[11] == 'h' && name[14] == 'e' {
        22
    } else if name.len() == 31 && name[1] == 'g' && name[2] == 'e' && name[3] == 't' && name[4] == 'B' && name[5] == 'r' && name[6] == 'i' && name[7] == 'g' && name[9] == 't' && name[10] == 'n' && name[11] == 'e' && name[14] == 'T' {
        23
    } else if name.len() == 31 && name[1] == 's' && name[2] == 'e' && name[3] == 't' && name[4] == 'B' && name[5] == 'r' && name[6] == 'i' && name[7] == 'g' && name[9] == 't' && name[10] == 'n' && name[11] == 'e' && name[14] == 'T' {
        24
    } else if name.len() == 5 && name[1] == 'b' && name[2] == 'e' && name[3] == 'n' && name[4] == 't' {
        25
    } else if name.len() == 17 && name[1] == 'g' && name[2] == 'e' && name[3] == 't' && name[4] == 'B' && name[5] == 'e' && name[6] == 'n' && name[7] == 'd' && name[9] == 'h' && name[10] == 'r' && name[11] == 'e' && name[14] == 'o' {
        26
    } else if name.len() == 17 && name[1] == 's' && name[2] == 'e' && name[3] == 't' && name[4] == 'B' && name[5] == 'e' && name[6] == 'n' && name[7] == 'd' && name[9] == 'h' && name[10] == 'r' && name[11] == 'e' && name[14] == 'o' {
        27
    } else if name.len() == 12 && name[1] == 'b' && name[2] == 'e' && name[3] == 'n' && name[4] == 'd' && name[5] == 'A' && name[6] == 'v' && name[7] == 'e' && name[9] == 'a' && name[10] == 'g' && name[11] == 'e' {
        28
    } else if name.len() == 13 && name[1] == 'h' && name[2] == 'e' && name[3] == 'a' && name[4] == 'd' && name[5] == 'p' && name[6] == 'h' && name[7] == 'o' && name[9] == 'e' && name[10] == 's' && name[11] == 'I' {
        38
    } else if name.len() == 13 && name[1] == 'b' && name[2] == 'a' && name[3] == 't' && name[4] == 't' && name[5] == 'e' && name[6] == 'r' && name[7] == 'y' && name[9] == 'o' && name[10] == 'l' && name[11] == 't' {
        39
    } else if name.len() == 10 && name[1] == 'p' && name[2] == 'o' && name[3] == 'w' && name[4] == 'e' && name[5] == 'r' && name[6] == 'D' && name[7] == 'o' && name[9] == 'n' {
        40
    } else if name.len() == 12 && name[1] == 'p' && name[2] == 'o' && name[3] == 'w' && name[4] == 'e' && name[5] == 'r' && name[6] == 'S' && name[7] == 'o' && name[9] == 'r' && name[10] == 'c' && name[11] == 'e' {
        41
    } else if name.len() == 11 && name[1] == 'f' && name[2] == 's' && name[3] == 'c' && name[4] == 'o' && name[5] == 'm' && name[6] == 'm' && name[7] == 'a' && name[9] == 'd' && name[10] == '2' {
        42
    } else if name.len() == 14 && name[1] == 'g' && name[2] == 'e' && name[3] == 't' && name[4] == 'T' && name[5] == 'o' && name[6] == 'u' && name[7] == 'c' && name[9] == 'C' && name[10] == 'l' && name[11] == 'i' {
        43
    } else if name.len() == 14 && name[1] == 's' && name[2] == 'e' && name[3] == 't' && name[4] == 'T' && name[5] == 'o' && name[6] == 'u' && name[7] == 'c' && name[9] == 'C' && name[10] == 'l' && name[11] == 'i' {
        44
    } else if name.len() == 8 && name[1] == 'g' && name[2] == 'e' && name[3] == 't' && name[4] == 'F' && name[5] == 'i' && name[6] == 'l' && name[7] == 'e' {
        50
    } else if name.len() == 8 && name[1] == 'p' && name[2] == 'u' && name[3] == 't' && name[4] == 'F' && name[5] == 'i' && name[6] == 'l' && name[7] == 'e' {
        51
    } else if name.len() == 9 && name[1] == 'b' && name[2] == 'a' && name[3] == 'c' && name[4] == 'k' && name[5] == 't' && name[6] == 'i' && name[7] == 'c' {
        52
    } else if name.len() == 11 && name[1] == 'f' && name[2] == 'i' && name[3] == 'l' && name[4] == 'e' && name[5] == 'E' && name[6] == 'x' && name[7] == 'i' && name[9] == 't' && name[10] == 's' {
        53
    } else if name.len() == 9 && name[1] == 'f' && name[2] == 'i' && name[3] == 'l' && name[4] == 'e' && name[5] == 'S' && name[6] == 'i' && name[7] == 'z' {
        54
    } else if name.len() == 7 && name[1] == 'u' && name[2] == 'n' && name[3] == 'l' && name[4] == 'i' && name[5] == 'n' && name[6] == 'k' {
        55
    } else if name.len() == 14 && name[1] == 'a' && name[2] == 'c' && name[3] == 'c' && name[4] == 'e' && name[5] == 'l' && name[6] == 'e' && name[7] == 'r' && name[9] == 'm' && name[10] == 'e' && name[11] == 't' {
        60
    } else if name.len() == 20 && name[1] == 'a' && name[2] == 'c' && name[3] == 'c' && name[4] == 'e' && name[5] == 'l' && name[6] == 'e' && name[7] == 'r' && name[9] == 'm' && name[10] == 'e' && name[11] == 't' && name[14] == 'S' {
        61
    } else if name.len() == 6 && name[1] == 'c' && name[2] == 's' && name[3] == 'c' && name[4] == 'c' && name[5] == 'd' {
        70
    } else if name.len() == 6 && name[1] == 'g' && name[2] == 's' && name[3] == 'c' && name[4] == 'c' && name[5] == 'd' {
        71
    } else if name.len() == 15 && name[1] == 's' && name[2] == 'l' && name[3] == 'a' && name[4] == 'v' && name[5] == 'e' && name[6] == 'S' && name[7] == 'e' && name[9] == 't' && name[10] == 'i' && name[11] == 'n' && name[14] == '2' {
        72
    } else if name.len() == 15 && name[1] == 's' && name[2] == 'l' && name[3] == 'a' && name[4] == 'v' && name[5] == 'e' && name[6] == 'S' && name[7] == 'e' && name[9] == 't' && name[10] == 'i' && name[11] == 'n' && name[14] == '4' {
        74
    } else if name.len() == 12 && name[1] == 's' && name[2] == 'e' && name[3] == 't' && name[4] == 'S' && name[5] == 'l' && name[6] == 'a' && name[7] == 'v' && name[9] == 'V' && name[10] == 'a' && name[11] == 'r' {
        80
    } else if name.len() == 12 && name[1] == 'g' && name[2] == 'e' && name[3] == 't' && name[4] == 'S' && name[5] == 'l' && name[6] == 'a' && name[7] == 'v' && name[9] == 'V' && name[10] == 'a' && name[11] == 'r' {
        81
    } else if name.len() == 14 && name[1] == 'r' && name[2] == 'o' && name[3] == 'u' && name[4] == 't' && name[5] == 'e' && name[6] == 'U' && name[7] == 'I' && name[9] == 'v' && name[10] == 'e' && name[11] == 'n' {
        82
    } else if name.len() == 11 && name[1] == 's' && name[2] == 'e' && name[3] == 't' && name[4] == 'D' && name[5] == 'i' && name[6] == 's' && name[7] == 'p' && name[9] == 'a' && name[10] == 'y' {
        83
    } else if name.len() == 11 && name[1] == 's' && name[2] == 't' && name[3] == 'a' && name[4] == 'r' && name[5] == 't' && name[6] == 'S' && name[7] == 'l' && name[9] == 'v' && name[10] == 'e' {
        84
    } else if name.len() == 10 && name[1] == 's' && name[2] == 't' && name[3] == 'o' && name[4] == 'p' && name[5] == 'S' && name[6] == 'l' && name[7] == 'a' && name[9] == 'e' {
        85
    } else if name.len() == 17 && name[1] == 'p' && name[2] == 'a' && name[3] == 'u' && name[4] == 's' && name[5] == 'e' && name[6] == 'R' && name[7] == 'e' && name[9] == 'u' && name[10] == 'm' && name[11] == 'e' && name[14] == 'a' {
        86
    } else if name.len() == 24 && name[1] == 'g' && name[2] == 'e' && name[3] == 't' && name[4] == 'D' && name[5] == 'e' && name[6] == 'f' && name[7] == 'a' && name[9] == 'l' && name[10] == 't' && name[11] == 'S' && name[14] == 'v' {
        87
    } else if name.len() == 11 && name[1] == 'g' && name[2] == 'e' && name[3] == 't' && name[4] == 'D' && name[5] == 'i' && name[6] == 's' && name[7] == 'p' && name[9] == 'a' && name[10] == 'y' {
        88
    } else if name.len() == 19 && name[1] == 'g' && name[2] == 'e' && name[3] == 't' && name[4] == 'S' && name[5] == 'l' && name[6] == 'a' && name[7] == 'v' && name[9] == 'L' && name[10] == 'o' && name[11] == 'a' && name[14] == 't' {
        89
    } else if name.len() == 21 && name[1] == 'g' && name[2] == 'e' && name[3] == 't' && name[4] == 'K' && name[5] == 'e' && name[6] == 'y' && name[7] == 'b' && name[9] == 'a' && name[10] == 'r' && name[11] == 'd' && name[14] == 'e' {
        90
    } else if name.len() == 12 && name[1] == 'h' && name[2] == 'a' && name[3] == 's' && name[4] == 'K' && name[5] == 'e' && name[6] == 'y' && name[7] == 'b' && name[9] == 'a' && name[10] == 'r' && name[11] == 'd' {
        91
    } else if name.len() == 21 && name[1] == 's' && name[2] == 'e' && name[3] == 't' && name[4] == 'K' && name[5] == 'e' && name[6] == 'y' && name[7] == 'b' && name[9] == 'a' && name[10] == 'r' && name[11] == 'd' && name[14] == 'e' {
        92
    } else if name.len() == 20 && name[1] == 'k' && name[2] == 'e' && name[3] == 'y' && name[4] == 'b' && name[5] == 'o' && name[6] == 'a' && name[7] == 'r' && name[9] == 'G' && name[10] == 'e' && name[11] == 't' && name[14] == 'a' {
        93
    } else if name.len() == 20 && name[1] == 'g' && name[2] == 'e' && name[3] == 't' && name[4] == 'M' && name[5] == 'o' && name[6] == 'u' && name[7] == 's' && name[9] == 'B' && name[10] == 'u' && name[11] == 't' && name[14] == 'n' {
        94
    } else if name.len() == 18 && name[1] == 'g' && name[2] == 'e' && name[3] == 't' && name[4] == 'N' && name[5] == 'e' && name[6] == 'x' && name[7] == 't' && name[9] == 'o' && name[10] == 'u' && name[11] == 's' && name[14] == 'v' {
        95
    } else if name.len() == 16 && name[1] == 'g' && name[2] == 'e' && name[3] == 't' && name[4] == 'G' && name[5] == 'a' && name[6] == 'm' && name[7] == 'e' && name[9] == 'a' && name[10] == 'd' && name[11] == 'S' && name[14] == 't' {
        96
    } else if name.len() == 20 && name[1] == 'g' && name[2] == 'e' && name[3] == 't' && name[4] == 'N' && name[5] == 'e' && name[6] == 'x' && name[7] == 't' && name[9] == 'a' && name[10] == 'm' && name[11] == 'e' && name[14] == 'd' {
        97
    } else if name.len() == 21 && name[1] == 'g' && name[2] == 'e' && name[3] == 't' && name[4] == 'K' && name[5] == 'e' && name[6] == 'y' && name[7] == 'E' && name[9] == 'e' && name[10] == 'n' && name[11] == 't' && name[14] == 'f' {
        98
    } else if name.len() == 21 && name[1] == 's' && name[2] == 'e' && name[3] == 't' && name[4] == 'K' && name[5] == 'e' && name[6] == 'y' && name[7] == 'E' && name[9] == 'e' && name[10] == 'n' && name[11] == 't' && name[14] == 'f' {
        99
    } else if name.len() == 12 && name[1] == 'e' && name[2] == 'x' && name[3] == 'p' && name[4] == 'i' && name[5] == 'r' && name[6] == 'e' && name[7] == 'C' && name[9] == 'c' && name[10] == 'h' && name[11] == 'e' {
        100
    } else if name.len() == 20 && name[1] == 'e' && name[2] == 'x' && name[3] == 'p' && name[4] == 'i' && name[5] == 'r' && name[6] == 'e' && name[7] == 'C' && name[9] == 'c' && name[10] == 'h' && name[11] == 'e' && name[14] == 'l' {
        101
    } else if name.len() == 21 && name[1] == 's' && name[2] == 'e' && name[3] == 't' && name[4] == 'O' && name[5] == 'v' && name[6] == 'e' && name[7] == 'r' && name[9] == 'a' && name[10] == 'y' && name[11] == 'V' && name[14] == 'i' {
        110
    } else if name.len() == 21 && name[1] == 'g' && name[2] == 'e' && name[3] == 't' && name[4] == 'O' && name[5] == 'v' && name[6] == 'e' && name[7] == 'r' && name[9] == 'a' && name[10] == 'y' && name[11] == 'V' && name[14] == 'i' {
        111
    } else if name.len() == 26 && name[1] == 's' && name[2] == 'e' && name[3] == 't' && name[4] == 'O' && name[5] == 'v' && name[6] == 'e' && name[7] == 'r' && name[9] == 'a' && name[10] == 'y' && name[11] == 'B' && name[14] == 'n' {
        112
    } else if name.len() == 26 && name[1] == 'g' && name[2] == 'e' && name[3] == 't' && name[4] == 'O' && name[5] == 'v' && name[6] == 'e' && name[7] == 'r' && name[9] == 'a' && name[10] == 'y' && name[11] == 'B' && name[14] == 'n' {
        113
    } else if name.len() == 32 && name[1] == 's' && name[2] == 'e' && name[3] == 't' && name[4] == 'O' && name[5] == 'v' && name[6] == 'e' && name[7] == 'r' && name[9] == 'a' && name[10] == 'y' && name[11] == 'C' && name[14] == 'o' {
        114
    } else if name.len() == 32 && name[1] == 'g' && name[2] == 'e' && name[3] == 't' && name[4] == 'O' && name[5] == 'v' && name[6] == 'e' && name[7] == 'r' && name[9] == 'a' && name[10] == 'y' && name[11] == 'C' && name[14] == 'o' {
        115
    } else if name.len() == 27 && name[1] == 's' && name[2] == 'e' && name[3] == 't' && name[4] == 'O' && name[5] == 'v' && name[6] == 'e' && name[7] == 'r' && name[9] == 'a' && name[10] == 'y' && name[11] == 'C' && name[14] == 'o' {
        116
    } else if name.len() == 27 && name[1] == 'g' && name[2] == 'e' && name[3] == 't' && name[4] == 'O' && name[5] == 'v' && name[6] == 'e' && name[7] == 'r' && name[9] == 'a' && name[10] == 'y' && name[11] == 'C' && name[14] == 'o' {
        117
    } else if name.len() == 20 && name[1] == 'e' && name[2] == 'n' && name[3] == 'a' && name[4] == 'b' && name[5] == 'l' && name[6] == 'e' && name[7] == 'M' && name[9] == 's' && name[10] == 't' && name[11] == 'e' && name[14] == 'p' {
        118
    } else if name.len() == 19 && name[1] == 'e' && name[2] == 'n' && name[3] == 'a' && name[4] == 'b' && name[5] == 'l' && name[6] == 'e' && name[7] == 'S' && name[9] == 'a' && name[10] == 'v' && name[11] == 'e' && name[14] == 'd' {
        119
    } else if name.len() == 16 && name[1] == 'e' && name[2] == 'x' && name[3] == 'i' && name[4] == 't' && name[5] == 'O' && name[6] == 'p' && name[7] == 'p' && name[9] == 'r' && name[10] == 't' && name[11] == 'u' && name[14] == 't' {
        120
    } else if name.len() == 21 && name[1] == 's' && name[2] == 'e' && name[3] == 'c' && name[4] == 'o' && name[5] == 'n' && name[6] == 'd' && name[7] == 's' && name[9] == 'e' && name[10] == 'f' && name[11] == 'o' && name[14] == 'R' {
        121
    } else if name.len() == 11 && name[1] == 'r' && name[2] == 'e' && name[3] == 's' && name[4] == 't' && name[5] == 'a' && name[6] == 'r' && name[7] == 't' && name[9] == 'o' && name[10] == 'w' {
        122
    } else if name.len() == 18 && name[1] == 'g' && name[2] == 'e' && name[3] == 't' && name[4] == 'A' && name[5] == 'u' && name[6] == 'd' && name[7] == 'i' && name[9] == 'P' && name[10] == 'l' && name[11] == 'a' && name[14] == 'r' {
        130
    } else if name.len() == 20 && name[1] == 'g' && name[2] == 'e' && name[3] == 't' && name[4] == 'A' && name[5] == 'u' && name[6] == 'd' && name[7] == 'i' && name[9] == 'P' && name[10] == 'l' && name[11] == 'a' && name[14] == 'r' {
        131
    } else if name.len() == 17 && name[1] == 'p' && name[2] == 'a' && name[3] == 'u' && name[4] == 's' && name[5] == 'e' && name[6] == 'A' && name[7] == 'u' && name[9] == 'i' && name[10] == 'o' && name[11] == 'P' && name[14] == 'y' {
        132
    } else if name.len() == 18 && name[1] == 'r' && name[2] == 'e' && name[3] == 's' && name[4] == 'u' && name[5] == 'm' && name[6] == 'e' && name[7] == 'A' && name[9] == 'd' && name[10] == 'i' && name[11] == 'o' && name[14] == 'a' {
        133
    } else if name.len() == 16 && name[1] == 's' && name[2] == 't' && name[3] == 'o' && name[4] == 'p' && name[5] == 'A' && name[6] == 'u' && name[7] == 'd' && name[9] == 'o' && name[10] == 'P' && name[11] == 'l' && name[14] == 'e' {
        134
    } else if name.len() == 30 && name[1] == 'g' && name[2] == 'e' && name[3] == 't' && name[4] == 'A' && name[5] == 'u' && name[6] == 'd' && name[7] == 'i' && name[9] == 'P' && name[10] == 'l' && name[11] == 'a' && name[14] == 'r' {
        135
    } else if name.len() == 23 && name[1] == 'i' && name[2] == 's' && name[3] == 'A' && name[4] == 'u' && name[5] == 'd' && name[6] == 'i' && name[7] == 'o' && name[9] == 'l' && name[10] == 'a' && name[11] == 'y' && name[14] == 'A' {
        140
    } else if name.len() == 21 && name[1] == 't' && name[2] == 'e' && name[3] == 'r' && name[4] == 'm' && name[5] == 'i' && name[6] == 'n' && name[7] == 'a' && name[9] == 'e' && name[10] == 'A' && name[11] == 'u' && name[14] == 'o' {
        141
    } else if name.len() == 17 && name[1] == 's' && name[2] == 't' && name[3] == 'a' && name[4] == 'r' && name[5] == 't' && name[6] == 'A' && name[7] == 'u' && name[9] == 'i' && name[10] == 'o' && name[11] == 'P' && name[14] == 'y' {
        142
    } else if name.len() == 19 && name[1] == 'r' && name[2] == 'e' && name[3] == 's' && name[4] == 't' && name[5] == 'a' && name[6] == 'r' && name[7] == 't' && name[9] == 'u' && name[10] == 'd' && name[11] == 'i' && name[14] == 'l' {
        143
    } else if name.len() == 10 && name[1] == 'p' && name[2] == 'l' && name[3] == 'a' && name[4] == 'y' && name[5] == 'A' && name[6] == 'u' && name[7] == 'd' && name[9] == 'o' {
        144
    } else if name.len() == 14 && name[1] == 'p' && name[2] == 'l' && name[3] == 'a' && name[4] == 'y' && name[5] == 'A' && name[6] == 'u' && name[7] == 'd' && name[9] == 'o' && name[10] == 'N' && name[11] == 'e' {
        145
    } else if name.len() == 19 && name[1] == 'p' && name[2] == 'l' && name[3] == 'a' && name[4] == 'y' && name[5] == 'A' && name[6] == 'u' && name[7] == 'd' && name[9] == 'o' && name[10] == 'L' && name[11] == 'o' && name[14] == 'C' {
        146
    } else if name.len() == 14 && name[1] == 's' && name[2] == 'k' && name[3] == 'i' && name[4] == 'p' && name[5] == 'A' && name[6] == 'u' && name[7] == 'd' && name[9] == 'o' && name[10] == 'N' && name[11] == 'e' {
        147
    } else if name.len() == 14 && name[1] == 's' && name[2] == 'k' && name[3] == 'i' && name[4] == 'p' && name[5] == 'A' && name[6] == 'u' && name[7] == 'd' && name[9] == 'o' && name[10] == 'P' && name[11] == 'r' {
        148
    } else if name.len() == 21 && name[1] == 'p' && name[2] == 'l' && name[3] == 'a' && name[4] == 'y' && name[5] == 'A' && name[6] == 'u' && name[7] == 'd' && name[9] == 'o' && name[10] == 'A' && name[11] == 'd' && name[14] == 'l' {
        149
    } else if name.len() == 23 && name[1] == 'p' && name[2] == 'l' && name[3] == 'a' && name[4] == 'y' && name[5] == 'A' && name[6] == 'u' && name[7] == 'd' && name[9] == 'o' && name[10] == 'R' && name[11] == 'e' && name[14] == 't' {
        150
    } else if name.len() == 13 && name[1] == 'p' && name[2] == 'l' && name[3] == 'a' && name[4] == 'y' && name[5] == 'A' && name[6] == 'u' && name[7] == 'd' && name[9] == 'o' && name[10] == 'N' && name[11] == 'o' {
        151
    } else if name.len() == 23 && name[1] == 's' && name[2] == 'e' && name[3] == 'n' && name[4] == 'd' && name[5] == 'M' && name[6] == 'e' && name[7] == 'd' && name[9] == 'a' && name[10] == 'P' && name[11] == 'l' && name[14] == 'e' {
        152
    } else if name.len() == 13 && name[1] == 'b' && name[2] == 'a' && name[3] == 's' && name[4] == 'e' && name[5] == '6' && name[6] == '4' && name[7] == 'E' && name[9] == 'c' && name[10] == 'o' && name[11] == 'd' {
        160
    } else if name.len() == 13 && name[1] == 'b' && name[2] == 'a' && name[3] == 's' && name[4] == 'e' && name[5] == '6' && name[6] == '4' && name[7] == 'D' && name[9] == 'c' && name[10] == 'o' && name[11] == 'd' {
        161
    } else if name.len() == 7 && name[1] == 'm' && name[2] == 'd' && name[3] == '5' && name[4] == 'S' && name[5] == 'u' && name[6] == 'm' {
        162
    } else if name.len() == 16 && name[1] == 'b' && name[2] == 'l' && name[3] == 'o' && name[4] == 'w' && name[5] == 'f' && name[6] == 'i' && name[7] == 's' && name[9] == 'E' && name[10] == 'n' && name[11] == 'c' && name[14] == 'p' {
        163
    } else if name.len() == 16 && name[1] == 'b' && name[2] == 'l' && name[3] == 'o' && name[4] == 'w' && name[5] == 'f' && name[6] == 'i' && name[7] == 's' && name[9] == 'D' && name[10] == 'e' && name[11] == 'c' && name[14] == 'p' {
        164
    } else if name.len() == 9 && name[1] == 'g' && name[2] == 'e' && name[3] == 't' && name[4] == 's' && name[5] == 't' && name[6] == 'a' && name[7] == 'l' {
        170
    } else if name.len() == 25 && name[1] == 'g' && name[2] == 'e' && name[3] == 't' && name[4] == 'N' && name[5] == 'e' && name[6] == 't' && name[7] == 'w' && name[9] == 'r' && name[10] == 'k' && name[11] == 'C' && name[14] == 'n' {
        172
    } else if name.len() == 25 && name[1] == 's' && name[2] == 'e' && name[3] == 't' && name[4] == 'N' && name[5] == 'e' && name[6] == 't' && name[7] == 'w' && name[9] == 'r' && name[10] == 'k' && name[11] == 'C' && name[14] == 'n' {
        173
    } else if name.len() == 18 && name[1] == 'g' && name[2] == 'e' && name[3] == 't' && name[4] == 'N' && name[5] == 'e' && name[6] == 't' && name[7] == 'w' && name[9] == 'r' && name[10] == 'k' && name[11] == 'T' && name[14] == 'e' {
        174
    } else if name.len() == 18 && name[1] == 's' && name[2] == 'e' && name[3] == 't' && name[4] == 'N' && name[5] == 'e' && name[6] == 't' && name[7] == 'w' && name[9] == 'r' && name[10] == 'k' && name[11] == 'T' && name[14] == 'e' {
        175
    } else if name.len() == 14 && name[1] == 's' && name[2] == 'e' && name[3] == 't' && name[4] == 'S' && name[5] == 'y' && name[6] == 's' && name[7] == 't' && name[9] == 'm' && name[10] == 'T' && name[11] == 'i' {
        176
    } else if name.len() == 12 && name[1] == 'g' && name[2] == 'e' && name[3] == 't' && name[4] == 'T' && name[5] == 'i' && name[6] == 'm' && name[7] == 'e' && name[9] == 'o' && name[10] == 'n' && name[11] == 'e' {
        177
    } else if name.len() == 12 && name[1] == 's' && name[2] == 'e' && name[3] == 't' && name[4] == 'T' && name[5] == 'i' && name[6] == 'm' && name[7] == 'e' && name[9] == 'o' && name[10] == 'n' && name[11] == 'e' {
        178
    } else if name.len() == 16 && name[1] == 'g' && name[2] == 'e' && name[3] == 't' && name[4] == 'S' && name[5] == 'y' && name[6] == 's' && name[7] == 't' && name[9] == 'm' && name[10] == 'V' && name[11] == 'o' && name[14] == 'm' {
        180
    } else if name.len() == 16 && name[1] == 's' && name[2] == 'e' && name[3] == 't' && name[4] == 'S' && name[5] == 'y' && name[6] == 's' && name[7] == 't' && name[9] == 'm' && name[10] == 'V' && name[11] == 'o' && name[14] == 'm' {
        181
    } else if name.len() == 17 && name[1] == 'g' && name[2] == 'e' && name[3] == 't' && name[4] == 'S' && name[5] == 'y' && name[6] == 's' && name[7] == 't' && name[9] == 'm' && name[10] == 'B' && name[11] == 'a' && name[14] == 'n' {
        182
    } else if name.len() == 17 && name[1] == 's' && name[2] == 'e' && name[3] == 't' && name[4] == 'S' && name[5] == 'y' && name[6] == 's' && name[7] == 't' && name[9] == 'm' && name[10] == 'B' && name[11] == 'a' && name[14] == 'n' {
        183
    } else if name.len() == 14 && name[1] == 'g' && name[2] == 'e' && name[3] == 't' && name[4] == 'S' && name[5] == 'y' && name[6] == 's' && name[7] == 't' && name[9] == 'm' && name[10] == 'M' && name[11] == 'u' {
        184
    } else if name.len() == 14 && name[1] == 's' && name[2] == 'e' && name[3] == 't' && name[4] == 'S' && name[5] == 'y' && name[6] == 's' && name[7] == 't' && name[9] == 'm' && name[10] == 'M' && name[11] == 'u' {
        185
    } else if name.len() == 11 && name[1] == 'p' && name[2] == 'i' && name[3] == 'p' && name[4] == 'e' && name[5] == 'D' && name[6] == 'a' && name[7] == 'e' && name[9] == 'o' && name[10] == 'n' {
        190
    } else if name.len() == 9 && name[1] == 'p' && name[2] == 'i' && name[3] == 'p' && name[4] == 'e' && name[5] == 'O' && name[6] == 'p' && name[7] == 'e' {
        191
    } else if name.len() == 13 && name[1] == 'p' && name[2] == 'i' && name[3] == 'p' && name[4] == 'e' && name[5] == 'S' && name[6] == 'e' && name[7] == 't' && name[9] == 'n' && name[10] == 'p' && name[11] == 'u' {
        192
    } else if name.len() == 9 && name[1] == 'p' && name[2] == 'i' && name[3] == 'p' && name[4] == 'e' && name[5] == 'R' && name[6] == 'e' && name[7] == 'a' {
        193
    } else if name.len() == 10 && name[1] == 'p' && name[2] == 'i' && name[3] == 'p' && name[4] == 'e' && name[5] == 'W' && name[6] == 'r' && name[7] == 'i' && name[9] == 'e' {
        194
    } else if name.len() == 10 && name[1] == 'p' && name[2] == 'i' && name[3] == 'p' && name[4] == 'e' && name[5] == 'C' && name[6] == 'l' && name[7] == 'o' && name[9] == 'e' {
        195
    } else if name.len() == 15 && name[1] == 'g' && name[2] == 'e' && name[3] == 't' && name[4] == 'S' && name[5] == 'c' && name[6] == 'r' && name[7] == 'e' && name[9] == 'n' && name[10] == 'W' && name[11] == 'i' && name[14] == 'h' {
        200
    } else if name.len() == 16 && name[1] == 'g' && name[2] == 'e' && name[3] == 't' && name[4] == 'S' && name[5] == 'c' && name[6] == 'r' && name[7] == 'e' && name[9] == 'n' && name[10] == 'H' && name[11] == 'e' && name[14] == 'h' {
        201
    } else if name.len() == 12 && name[1] == 'g' && name[2] == 'e' && name[3] == 't' && name[4] == 'P' && name[5] == 'l' && name[6] == 'a' && name[7] == 't' && name[9] == 'o' && name[10] == 'r' && name[11] == 'm' {
        202
    } else if name.len() == 14 && name[1] == 'g' && name[2] == 'e' && name[3] == 't' && name[4] == 'U' && name[5] == 's' && name[6] == 'i' && name[7] == 'n' && name[9] == 'T' && name[10] == 's' && name[11] == 'd' {
        203
    } else if name.len() == 21 && name[1] == 'g' && name[2] == 'e' && name[3] == 't' && name[4] == 'T' && name[5] == 'S' && name[6] == 'C' && name[7] == 'a' && name[9] == 'i' && name[10] == 'b' && name[11] == 'r' && name[14] == 'i' {
        204
    } else if name.len() == 15 && name[1] == 'g' && name[2] == 'e' && name[3] == 't' && name[4] == 'E' && name[5] == 'n' && name[6] == 'v' && name[7] == 'i' && name[9] == 'o' && name[10] == 'n' && name[11] == 'm' && name[14] == 't' {
        205
    } else if name.len() == 7 && name[1] == 'g' && name[2] == 'e' && name[3] == 't' && name[4] == 'p' && name[5] == 'i' && name[6] == 'd' {
        207
    } else if name.len() == 21 && name[1] == 'g' && name[2] == 'e' && name[3] == 't' && name[4] == 'T' && name[5] == 'o' && name[6] == 't' && name[7] == 'a' && name[9] == 'P' && name[10] == 'l' && name[11] == 'a' && name[14] == 'r' {
        208
    } else if name.len() == 20 && name[1] == 'g' && name[2] == 'e' && name[3] == 't' && name[4] == 'F' && name[5] == 'r' && name[6] == 'e' && name[7] == 'e' && name[9] == 'l' && name[10] == 'a' && name[11] == 'y' && name[14] == 'M' {
        209
    } else if name.len() == 15 && name[1] == 's' && name[2] == 'e' && name[3] == 't' && name[4] == 'S' && name[5] == 'l' && name[6] == 'a' && name[7] == 'v' && name[9] == 'A' && name[10] == 'S' && name[11] == '3' && name[14] == 'r' {
        210
    } else if name.len() == 18 && name[1] == 's' && name[2] == 'e' && name[3] == 't' && name[4] == 'U' && name[5] == 'R' && name[6] == 'L' && name[7] == 'E' && name[9] == 'c' && name[10] == 'o' && name[11] == 'd' && name[14] == 'V' {
        211
    } else if name.len() == 24 && name[1] == 'e' && name[2] == 'n' && name[3] == 'a' && name[4] == 'b' && name[5] == 'l' && name[6] == 'e' && name[7] == 'M' && name[9] == 's' && name[10] == 't' && name[11] == 'e' && name[14] == 'p' {
        220
    } else if name.len() == 19 && name[1] == 'g' && name[2] == 'e' && name[3] == 't' && name[4] == 'B' && name[5] == 'i' && name[6] == 't' && name[7] == 'm' && name[9] == 'p' && name[10] == 'S' && name[11] == 'm' && name[14] == 't' {
        300
    } else if name.len() == 19 && name[1] == 's' && name[2] == 'e' && name[3] == 't' && name[4] == 'B' && name[5] == 'i' && name[6] == 't' && name[7] == 'm' && name[9] == 'p' && name[10] == 'S' && name[11] == 'm' && name[14] == 't' {
        301
    } else if name.len() == 18 && name[1] == 'g' && name[2] == 'e' && name[3] == 't' && name[4] == 'D' && name[5] == 'i' && name[6] == 'r' && name[7] == 'e' && name[9] == 't' && name[10] == 'o' && name[11] == 'r' && name[14] == 'n' {
        320
    } else if name.len() == 15 && name[1] == 's' && name[2] == 'l' && name[3] == 'a' && name[4] == 'v' && name[5] == 'e' && name[6] == 'M' && name[7] == 'o' && name[9] == 's' && name[10] == 'e' && name[11] == 'D' && name[14] == 'n' {
        330
    } else if name.len() == 15 && name[1] == 's' && name[2] == 'l' && name[3] == 'a' && name[4] == 'v' && name[5] == 'e' && name[6] == 'M' && name[7] == 'o' && name[9] == 's' && name[10] == 'e' && name[11] == 'M' && name[14] == 'e' {
        331
    } else if name.len() == 13 && name[1] == 's' && name[2] == 'l' && name[3] == 'a' && name[4] == 'v' && name[5] == 'e' && name[6] == 'M' && name[7] == 'o' && name[9] == 's' && name[10] == 'e' && name[11] == 'U' {
        332
    } else if name.len() == 15 && name[1] == 'g' && name[2] == 'e' && name[3] == 't' && name[4] == 'L' && name[5] == 'a' && name[6] == 's' && name[7] == 't' && name[9] == 'e' && name[10] == 's' && name[11] == 't' && name[14] == 'e' {
        333
    } else if name.len() == 17 && name[1] == 'p' && name[2] == 'a' && name[3] == 'u' && name[4] == 's' && name[5] == 'e' && name[6] == 'M' && name[7] == 'e' && name[9] == 'i' && name[10] == 'a' && name[11] == 'P' && name[14] == 'y' {
        340
    } else if name.len() == 18 && name[1] == 'r' && name[2] == 'e' && name[3] == 's' && name[4] == 'u' && name[5] == 'm' && name[6] == 'e' && name[7] == 'M' && name[9] == 'd' && name[10] == 'i' && name[11] == 'a' && name[14] == 'a' {
        341
    } else if name.len() == 16 && name[1] == 's' && name[2] == 't' && name[3] == 'o' && name[4] == 'p' && name[5] == 'M' && name[6] == 'e' && name[7] == 'd' && name[9] == 'a' && name[10] == 'P' && name[11] == 'l' && name[14] == 'e' {
        342
    } else if name.len() == 25 && name[1] == 'g' && name[2] == 'r' && name[3] == 'a' && name[4] == 'n' && name[5] == 't' && name[6] == 'T' && name[7] == 'e' && name[9] == 'p' && name[10] == 'S' && name[11] == 'l' && name[14] == 'e' {
        360
    } else if name.len() == 26 && name[1] == 'r' && name[2] == 'e' && name[3] == 'v' && name[4] == 'o' && name[5] == 'k' && name[6] == 'e' && name[7] == 'T' && name[9] == 'm' && name[10] == 'p' && name[11] == 'S' && name[14] == 'v' {
        361
    } else if name.len() == 21 && name[1] == 'g' && name[2] == 'r' && name[3] == 'a' && name[4] == 'n' && name[5] == 't' && name[6] == 'S' && name[7] == 'l' && name[9] == 'v' && name[10] == 'e' && name[11] == 'P' && name[14] == 'v' {
        362
    } else if name.len() == 22 && name[1] == 'r' && name[2] == 'e' && name[3] == 'v' && name[4] == 'o' && name[5] == 'k' && name[6] == 'e' && name[7] == 'S' && name[9] == 'a' && name[10] == 'v' && name[11] == 'e' && name[14] == 'i' {
        363
    } else if name.len() == 23 && name[1] == 'g' && name[2] == 'e' && name[3] == 't' && name[4] == 'E' && name[5] == 'f' && name[6] == 'f' && name[7] == 'e' && name[9] == 't' && name[10] == 'i' && name[11] == 'v' && name[14] == 'r' {
        364
    } else if name.len() == 15 && name[1] == 'r' && name[2] == 'e' && name[3] == 's' && name[4] == 'e' && name[5] == 't' && name[6] == 'T' && name[7] == 'r' && name[9] == 'n' && name[10] == 's' && name[11] == 'f' && name[14] == 'm' {
        370
    } else if name.len() == 12 && name[1] == 'a' && name[2] == 'd' && name[3] == 'd' && name[4] == 'R' && name[5] == 'o' && name[6] == 't' && name[7] == 'a' && name[9] == 'i' && name[10] == 'o' && name[11] == 'n' {
        371
    } else if name.len() == 9 && name[1] == 'a' && name[2] == 'd' && name[3] == 'd' && name[4] == 'S' && name[5] == 'c' && name[6] == 'a' && name[7] == 'l' {
        372
    } else if name.len() == 13 && name[1] == 'a' && name[2] == 'd' && name[3] == 'd' && name[4] == 'T' && name[5] == 'r' && name[6] == 'a' && name[7] == 'n' && name[9] == 'l' && name[10] == 'a' && name[11] == 't' {
        373
    } else if name.len() == 19 && name[1] == 's' && name[2] == 'e' && name[3] == 't' && name[4] == 'B' && name[5] == 'a' && name[6] == 'c' && name[7] == 'k' && name[9] == 'r' && name[10] == 'o' && name[11] == 'u' && name[14] == 'A' {
        380
    } else if name.len() == 17 && name[1] == 'g' && name[2] == 'e' && name[3] == 't' && name[4] == 'S' && name[5] == 'W' && name[6] == 'F' && name[7] == 'D' && name[9] == 'm' && name[10] == 'e' && name[11] == 'n' && name[14] == 'o' {
        381
    } else if name.len() == 24 && name[1] == 'm' && name[2] == 'a' && name[3] == 'p' && name[4] == 'M' && name[5] == 'o' && name[6] == 'v' && name[7] == 'i' && name[9] == 'T' && name[10] == 'o' && name[11] == 'V' && name[14] == 'w' {
        382
    } else if name.len() == 24 && name[1] == 'm' && name[2] == 'a' && name[3] == 'p' && name[4] == 'V' && name[5] == 'i' && name[6] == 'e' && name[7] == 'w' && name[9] == 'o' && name[10] == 'r' && name[11] == 't' && name[14] == 'M' {
        383
    } else if name.len() == 22 && name[1] == 'f' && name[2] == 'i' && name[3] == 'l' && name[4] == 'l' && name[5] == 'F' && name[6] == 'r' && name[7] == 'a' && name[9] == 'e' && name[10] == 'B' && name[11] == 'u' && name[14] == 'e' {
        384
    } else if name.len() == 21 && name[1] == 'f' && name[2] == 'i' && name[3] == 'l' && name[4] == 'l' && name[5] == 'F' && name[6] == 'r' && name[7] == 'a' && name[9] == 'e' && name[10] == 'B' && name[11] == 'u' && name[14] == 'e' {
        385
    } else if name.len() == 15 && name[1] == 's' && name[2] == 'e' && name[3] == 't' && name[4] == 'D' && name[5] == 'i' && name[6] == 's' && name[7] == 'p' && name[9] == 'a' && name[10] == 'y' && name[11] == 'R' && name[14] == 't' {
        386
    } else if name.len() == 29 && name[1] == 's' && name[2] == 'e' && name[3] == 't' && name[4] == 'D' && name[5] == 'i' && name[6] == 's' && name[7] == 'p' && name[9] == 'a' && name[10] == 'y' && name[11] == 'R' && name[14] == 't' {
        387
    } else if name.len() == 22 && name[1] == 'S' && name[2] == 'e' && name[3] == 't' && name[4] == 'O' && name[5] == 'n' && name[6] == 'L' && name[7] == 'o' && name[9] == 'a' && name[10] == 't' && name[11] == 'i' && name[14] == 'C' {
        420
    } else {
        -1
    }
}

proof fn lemma_native_index(i: u16)
    requires
        native_name(i) != "_unknown"@,
    ensures
        native_index(native_name(i)) == i as int,
{
    reveal_strlit("_unknown");
    reveal_strlit("_rawX");
    reveal_strlit("_rawY");
    reveal_strlit("_setCalibration");
    reveal_strlit("_writeCalibration");
    reveal_strlit("_bendLevel");
    reveal_strlit("_lightLevel");
    reveal_strlit("_dcVolts");
    reveal_strlit("_getSpeakerMute");
    reveal_strlit("_setSpeakerMute");
    reveal_strlit("_getLCDMute");
    reveal_strlit("_setLCDMute");
    reveal_strlit("_getLCDBrightness");
    reveal_strlit("_setLCDBrightness");
    reveal_strlit("_getBrightnessThresholdForRange");
    reveal_strlit("_setBrightnessThresholdForRange");
    reveal_strlit("_bent");
    reveal_strlit("_getBendThreshold");
    reveal_strlit("_setBendThreshold");
    reveal_strlit("_bendAverage");
    reveal_strlit("_headphonesIn");
    reveal_strlit("_batteryVolts");
    reveal_strlit("_powerDown");
    reveal_strlit("_powerSource");
    reveal_strlit("_fscommand2");
    reveal_strlit("_getTouchClick");
    reveal_strlit("_setTouchClick");
    reveal_strlit("_getFile");
    reveal_strlit("_putFile");
    reveal_strlit("_backtick");
    reveal_strlit("_fileExists");
    reveal_strlit("_fileSize");
    reveal_strlit("_unlink");
    reveal_strlit("_accelerometer");
    reveal_strlit("_accelerometerSigned");
    reveal_strlit("_csccd");
    reveal_strlit("_gsccd");
    reveal_strlit("_slaveSetting72");
    reveal_strlit("_slaveSetting74");
    reveal_strlit("_setSlaveVar");
    reveal_strlit("_getSlaveVar");
    reveal_strlit("_routeUIEvents");
    reveal_strlit("_setDisplay");
    reveal_strlit("_startSlave");
    reveal_strlit("_stopSlave");
    reveal_strlit("_pauseResumeSlave");
    reveal_strlit("_getDefaultSlaveInstance");
    reveal_strlit("_getDisplay");
    reveal_strlit("_getSlaveLoadStatus");
    reveal_strlit("_getKeyboardEventMask");
    reveal_strlit("_hasKeyboard");
    reveal_strlit("_setKeyboardEventMask");
    reveal_strlit("_keyboardGetScanCode");
    reveal_strlit("_getMouseButtonState");
    reveal_strlit("_getNextMouseEvent");
    reveal_strlit("_getGamepadState");
    reveal_strlit("_getNextGamepadEvent");
    reveal_strlit("_getKeyEventOfferMask");
    reveal_strlit("_setKeyEventOfferMask");
    reveal_strlit("_expireCache");
    reveal_strlit("_expireCacheFiltered");
    reveal_strlit("_setOverlayVisibility");
    reveal_strlit("_getOverlayVisibility");
    reveal_strlit("_setOverlayBlendingEnabled");
    reveal_strlit("_getOverlayBlendingEnabled");
    reveal_strlit("_setOverlayChromaBlendingEnabled");
    reveal_strlit("_getOverlayChromaBlendingEnabled");
    reveal_strlit("_setOverlayChromaBlendColor");
    reveal_strlit("_getOverlayChromaBlendColor");
    reveal_strlit("_enableMasterUpdates");
    reveal_strlit("_enableSlaveUpdates");
    reveal_strlit("_exitOpportunity");
    reveal_strlit("_secondsBeforeRestart");
    reveal_strlit("_restartNow");
    reveal_strlit("_getAudioPlayerPID");
    reveal_strlit("_getAudioPlayerState");
    reveal_strlit("_pauseAudioPlayer");
    reveal_strlit("_resumeAudioPlayer");
    reveal_strlit("_stopAudioPlayer");
    reveal_strlit("_getAudioPlayerTrackAttributes");
    reveal_strlit("_isAudioPlayerAvailable");
    reveal_strlit("_terminateAudioPlayer");
    reveal_strlit("_startAudioPlayer");
    reveal_strlit("_restartAudioPlayer");
    reveal_strlit("_playAudio");
    reveal_strlit("_playAudioNext");
    reveal_strlit("_playAudioLoopCount");
    reveal_strlit("_skipAudioNext");
    reveal_strlit("_skipAudioPrev");
    reveal_strlit("_playAudioAddPlaylist");
    reveal_strlit("_playAudioResetPlaylist");
    reveal_strlit("_playAudioNow");
    reveal_strlit("_sendMediaPlayerCommand");
    reveal_strlit("_base64Encode");
    reveal_strlit("_base64Decode");
    reveal_strlit("_md5Sum");
    reveal_strlit("_blowfishEncrypt");
    reveal_strlit("_blowfishDecrypt");
    reveal_strlit("_getstalt");
    reveal_strlit("_getNetworkConnectTimeout");
    reveal_strlit("_setNetworkConnectTimeout");
    reveal_strlit("_getNetworkTimeout");
    reveal_strlit("_setNetworkTimeout");
    reveal_strlit("_setSystemTime");
    reveal_strlit("_getTimeZone");
    reveal_strlit("_setTimeZone");
    reveal_strlit("_getSystemVolume");
    reveal_strlit("_setSystemVolume");
    reveal_strlit("_getSystemBalance");
    reveal_strlit("_setSystemBalance");
    reveal_strlit("_getSystemMute");
    reveal_strlit("_setSystemMute");
    reveal_strlit("_pipeDaemon");
    reveal_strlit("_pipeOpen");
    reveal_strlit("_pipeSetInput");
    reveal_strlit("_pipeRead");
    reveal_strlit("_pipeWrite");
    reveal_strlit("_pipeClose");
    reveal_strlit("_getScreenWidth");
    reveal_strlit("_getScreenHeight");
    reveal_strlit("_getPlatform");
    reveal_strlit("_getUsingTsdev");
    reveal_strlit("_getTSCalibrationPath");
    reveal_strlit("_getEnvironment");
    reveal_strlit("_getpid");
    reveal_strlit("_getTotalPlayerMemory");
    reveal_strlit("_getFreePlayerMemory");
    reveal_strlit("_setSlaveAS3Var");
    reveal_strlit("_setURLEncodedVars");
    reveal_strlit("_enableMasterUpdatesPriv");
    reveal_strlit("_getBitmapSmoothing");
    reveal_strlit("_setBitmapSmoothing");
    reveal_strlit("_getDirectoryEntry");
    reveal_strlit("_slaveMouseDown");
    reveal_strlit("_slaveMouseMove");
    reveal_strlit("_slaveMouseUp");
    reveal_strlit("_getLastGesture");
    reveal_strlit("_pauseMediaPlayer");
    reveal_strlit("_resumeMediaPlayer");
    reveal_strlit("_stopMediaPlayer");
    reveal_strlit("_grantTempSlavePrivileges");
    reveal_strlit("_revokeTempSlavePrivileges");
    reveal_strlit("_grantSlavePrivileges");
    reveal_strlit("_revokeSlavePrivileges");
    reveal_strlit("_getEffectivePrivileges");
    reveal_strlit("_resetTransform");
    reveal_strlit("_addRotation");
    reveal_strlit("_addScale");
    reveal_strlit("_addTranslate");
    reveal_strlit("_setBackgroundAlpha");
    reveal_strlit("_getSWFDimensions");
    reveal_strlit("_mapMovieToViewportSpace");
    reveal_strlit("_mapViewportToMovieSpace");
    reveal_strlit("_fillFrameBufferPixels");
    reveal_strlit("_fillFrameBufferBytes");
    reveal_strlit("_setDisplayRect");
    reveal_strlit("_setDisplayRectEventTranslate");
    reveal_strlit("_SetOnLocationCallback");
}

/// Canonical index → wrapper-name map, used for logging and for dispatching
/// host natives by name.
pub fn wrapper_name(index: u16) -> (name: &'static str)
    ensures
        name@ == native_name(index),
{
    match index {
        10 => "_rawX",
        11 => "_rawY",
        12 => "_setCalibration",
        13 => "_writeCalibration",
        14 => "_bendLevel",
        15 => "_lightLevel",
        16 => "_dcVolts",
        17 => "_getSpeakerMute",
        18 => "_setSpeakerMute",
        19 => "_getLCDMute",
        20 => "_setLCDMute",
        21 => "_getLCDBrightness",
        22 => "_setLCDBrightness",
        23 => "_getBrightnessThresholdForRange",
        24 => "_setBrightnessThresholdForRange",
        25 => "_bent",
        26 => "_getBendThreshold",
        27 => "_setBendThreshold",
        28 => "_bendAverage",
        38 => "_headphonesIn",
        39 => "_batteryVolts",
        40 => "_powerDown",
        41 => "_powerSource",
        42 => "_fscommand2",
        43 => "_getTouchClick",
        44 => "_setTouchClick",
        50 => "_getFile",
        51 => "_putFile",
        52 => "_backtick",
        53 => "_fileExists",
        54 => "_fileSize",
        55 => "_unlink",
        60 => "_accelerometer",
        61 => "_accelerometerSigned",
        70 => "_csccd",
        71 => "_gsccd",
        72 => "_slaveSetting72",
        74 => "_slaveSetting74",
        80 => "_setSlaveVar",
        81 => "_getSlaveVar",
        82 => "_routeUIEvents",
        83 => "_setDisplay",
        84 => "_startSlave",
        85 => "_stopSlave",
        86 => "_pauseResumeSlave",
        87 => "_getDefaultSlaveInstance",
        88 => "_getDisplay",
        89 => "_getSlaveLoadStatus",
        90 => "_getKeyboardEventMask",
        91 => "_hasKeyboard",
        92 => "_setKeyboardEventMask",
        93 => "_keyboardGetScanCode",
        94 => "_getMouseButtonState",
        95 => "_getNextMouseEvent",
        96 => "_getGamepadState",
        97 => "_getNextGamepadEvent",
        98 => "_getKeyEventOfferMask",
        99 => "_setKeyEventOfferMask",
        100 => "_expireCache",
        101 => "_expireCacheFiltered",
        110 => "_setOverlayVisibility",
        111 => "_getOverlayVisibility",
        112 => "_setOverlayBlendingEnabled",
        113 => "_getOverlayBlendingEnabled",
        114 => "_setOverlayChromaBlendingEnabled",
        115 => "_getOverlayChromaBlendingEnabled",
        116 => "_setOverlayChromaBlendColor",
        117 => "_getOverlayChromaBlendColor",
        118 => "_enableMasterUpdates",
        119 => "_enableSlaveUpdates",
        120 => "_exitOpportunity",
        121 => "_secondsBeforeRestart",
        122 => "_restartNow",
        130 => "_getAudioPlayerPID",
        131 => "_getAudioPlayerState",
        132 => "_pauseAudioPlayer",
        133 => "_resumeAudioPlayer",
        134 => "_stopAudioPlayer",
        135 => "_getAudioPlayerTrackAttributes",
        140 => "_isAudioPlayerAvailable",
        141 => "_terminateAudioPlayer",
        142 => "_startAudioPlayer",
        143 => "_restartAudioPlayer",
        144 => "_playAudio",
        145 => "_playAudioNext",
        146 => "_playAudioLoopCount",
        147 => "_skipAudioNext",
        148 => "_skipAudioPrev",
        149 => "_playAudioAddPlaylist",
        150 => "_playAudioResetPlaylist",
        151 => "_playAudioNow",
        152 => "_sendMediaPlayerCommand",
        160 => "_base64Encode",
        161 => "_base64Decode",
        162 => "_md5Sum",
        163 => "_blowfishEncrypt",
        164 => "_blowfishDecrypt",
        170 => "_getstalt",
        172 => "_getNetworkConnectTimeout",
        173 => "_setNetworkConnectTimeout",
        174 => "_getNetworkTimeout",
        175 => "_setNetworkTimeout",
        176 => "_setSystemTime",
        177 => "_getTimeZone",
        178 => "_setTimeZone",
        180 => "_getSystemVolume",
        181 => "_setSystemVolume",
        182 => "_getSystemBalance",
        183 => "_setSystemBalance",
        184 => "_getSystemMute",
        185 => "_setSystemMute",
        190 => "_pipeDaemon",
        191 => "_pipeOpen",
        192 => "_pipeSetInput",
        193 => "_pipeRead",
        194 => "_pipeWrite",
        195 => "_pipeClose",
        200 => "_getScreenWidth",
        201 => "_getScreenHeight",
        202 => "_getPlatform",
        203 => "_getUsingTsdev",
        204 => "_getTSCalibrationPath",
        205 => "_getEnvironment",
        207 => "_getpid",
        208 => "_getTotalPlayerMemory",
        209 => "_getFreePlayerMemory",
        210 => "_setSlaveAS3Var",
        211 => "_setURLEncodedVars",
        220 => "_enableMasterUpdatesPriv",
        300 => "_getBitmapSmoothing",
        301 => "_setBitmapSmoothing",
        320 => "_getDirectoryEntry",
        330 => "_slaveMouseDown",
        331 => "_slaveMouseMove",
        332 => "_slaveMouseUp",
        333 => "_getLastGesture",
        340 => "_pauseMediaPlayer",
        341 => "_resumeMediaPlayer",
        342 => "_stopMediaPlayer",
        360 => "_grantTempSlavePrivileges",
        361 => "_revokeTempSlavePrivileges",
        362 => "_grantSlavePrivileges",
        363 => "_revokeSlavePrivileges",
        364 => "_getEffectivePrivileges",
        370 => "_resetTransform",
        371 => "_addRotation",
        372 => "_addScale",
        373 => "_addTranslate",
        380 => "_setBackgroundAlpha",
        381 => "_getSWFDimensions",
        382 => "_mapMovieToViewportSpace",
        383 => "_mapViewportToMovieSpace",
        384 => "_fillFrameBufferPixels",
        385 => "_fillFrameBufferBytes",
        386 => "_setDisplayRect",
        387 => "_setDisplayRectEventTranslate",
        420 => "_SetOnLocationCallback",
        _ => "_unknown",
    }
}

/// How a native index is served.
#[derive(Debug, Clone, Copy, PartialEq, Eq)]
pub enum NativeRoute {
    /// (5,50) `_getFile(path)`: file contents, undefined when missing.
    GetFile,
    /// (5,51) `_putFile(path, data)`.
    PutFile,
    /// (5,53) `_fileExists(path)`: 1/0.
    FileExists,
    /// (5,54) `_fileSize(path)`: bytes, 0 when missing.
    FileSize,
    /// (5,55) `_unlink(path)`.
    Unlink,
    /// (5,320) `_getDirectoryEntry(obj, path, index)`.
    DirectoryEntry,
    /// (5,52) `_backtick(cmd)`: synchronous shell.
    Backtick,
    /// (5,160) `_base64Encode(s)`, computed in-table.
    Base64Encode,
    /// (5,161) `_base64Decode(s)`, computed in-table.
    Base64Decode,
    /// (5,162) `_md5Sum(s)`, computed in-table.
    Md5Sum,
    /// Everything else: host state, by wrapper name.
    Host,
}

pub open spec fn route_of(index: u16) -> NativeRoute {
    if index == 50 {
        NativeRoute::GetFile
    } else if index == 51 {
        NativeRoute::PutFile
    } else if index == 53 {
        NativeRoute::FileExists
    } else if index == 54 {
        NativeRoute::FileSize
    } else if index == 55 {
        NativeRoute::Unlink
    } else if index == 320 {
        NativeRoute::DirectoryEntry
    } else if index == 52 {
        NativeRoute::Backtick
    } else if index == 160 {
        NativeRoute::Base64Encode
    } else if index == 161 {
        NativeRoute::Base64Decode
    } else if index == 162 {
        NativeRoute::Md5Sum
    } else {
        NativeRoute::Host
    }
}

/// Which part of the player answers native `index`.
pub fn route(index: u16) -> (r: NativeRoute)
    ensures
        r == route_of(index),
{
    match index {
        50 => NativeRoute::GetFile,
        51 => NativeRoute::PutFile,
        53 => NativeRoute::FileExists,
        54 => NativeRoute::FileSize,
        55 => NativeRoute::Unlink,
        320 => NativeRoute::DirectoryEntry,
        52 => NativeRoute::Backtick,
        160 => NativeRoute::Base64Encode,
        161 => NativeRoute::Base64Decode,
        162 => NativeRoute::Md5Sum,
        _ => NativeRoute::Host,
    }
}

/// `_path` for `_getDirectoryEntry`: the directory's normalized components
/// joined with `/`, then `/` and the entry name.
pub open spec fn panel_path_join_spec(dir: Seq<char>, name: Seq<char>) -> Seq<char> {
    slash_join(path_components(dir)) + seq!['/'] + name
}

/// `_path` for `_getDirectoryEntry`: join directory and entry name in
/// normalized panel space, collapsing the panel's multi-slash path forms.
pub fn panel_path_join(dir: &str, name: &str) -> (r: String)
    ensures
        r@ == panel_path_join_spec(dir@, name@),
{
    let d = chars_of(dir);
    let cs = components(&d);
    let mut full = crate::path::join_components(&cs);
    full.push('/');
    let n = chars_of(name);
    push_all(&mut full, &n);
    string_of(&full)
}


/// The base64 alphabet: `A-Z`, `a-z`, `0-9`, `+`, `/`.
pub open spec fn b64_symbol(v: int) -> char {
    if v < 26 {
        (65 + v) as char
    } else if v < 52 {
        (97 + v - 26) as char
    } else if v < 62 {
        (48 + v - 52) as char
    } else if v == 62 {
        '+'
    } else {
        '/'
    }
}

/// The value of a base64 alphabet character; `None` for anything else,
/// padding included.
pub open spec fn b64_value(c: char) -> Option<int> {
    if 'A' <= c && c <= 'Z' {
        Some(c as int - 65)
    } else if 'a' <= c && c <= 'z' {
        Some(c as int - 97 + 26)
    } else if '0' <= c && c <= '9' {
        Some(c as int - 48 + 52)
    } else if c == '+' {
        Some(62)
    } else if c == '/' {
        Some(63)
    } else {
        None
    }
}

/// The standard base64 alphabet, in value order.
pub open spec fn b64_alphabet() -> Seq<char> {
    "ABCDEFGHIJKLMNOPQRSTUVWXYZabcdefghijklmnopqrstuvwxyz0123456789+/"@
}

/// The symbols are the standard alphabet: value `v` is written as the
/// alphabet's `v`-th character, and reading that character back gives `v`;
/// nothing outside the alphabet has a value.
pub proof fn law_b64_standard_alphabet(v: int, c: char)
    ensures
        b64_alphabet().len() == 64,
        0 <= v < 64 ==> b64_symbol(v) == b64_alphabet()[v],
        0 <= v < 64 ==> b64_value(b64_alphabet()[v]) == Some(v),
        b64_value(c) is Some <==> b64_alphabet().contains(c),
{
    reveal_strlit("ABCDEFGHIJKLMNOPQRSTUVWXYZabcdefghijklmnopqrstuvwxyz0123456789+/");
    let a = b64_alphabet();
    assert(a[0] == 'A' && b64_symbol(0) == 'A');
    assert(a[1] == 'B' && b64_symbol(1) == 'B');
    assert(a[2] == 'C' && b64_symbol(2) == 'C');
    assert(a[3] == 'D' && b64_symbol(3) == 'D');
    assert(a[4] == 'E' && b64_symbol(4) == 'E');
    assert(a[5] == 'F' && b64_symbol(5) == 'F');
    assert(a[6] == 'G' && b64_symbol(6) == 'G');
    assert(a[7] == 'H' && b64_symbol(7) == 'H');
    assert(a[8] == 'I' && b64_symbol(8) == 'I');
    assert(a[9] == 'J' && b64_symbol(9) == 'J');
    assert(a[10] == 'K' && b64_symbol(10) == 'K');
    assert(a[11] == 'L' && b64_symbol(11) == 'L');
    assert(a[12] == 'M' && b64_symbol(12) == 'M');
    assert(a[13] == 'N' && b64_symbol(13) == 'N');
    assert(a[14] == 'O' && b64_symbol(14) == 'O');
    assert(a[15] == 'P' && b64_symbol(15) == 'P');
    assert(a[16] == 'Q' && b64_symbol(16) == 'Q');
    assert(a[17] == 'R' && b64_symbol(17) == 'R');
    assert(a[18] == 'S' && b64_symbol(18) == 'S');
    assert(a[19] == 'T' && b64_symbol(19) == 'T');
    assert(a[20] == 'U' && b64_symbol(20) == 'U');
    assert(a[21] == 'V' && b64_symbol(21) == 'V');
    assert(a[22] == 'W' && b64_symbol(22) == 'W');
    assert(a[23] == 'X' && b64_symbol(23) == 'X');
    assert(a[24] == 'Y' && b64_symbol(24) == 'Y');
    assert(a[25] == 'Z' && b64_symbol(25) == 'Z');
    assert(a[26] == 'a' && b64_symbol(26) == 'a');
    assert(a[27] == 'b' && b64_symbol(27) == 'b');
    assert(a[28] == 'c' && b64_symbol(28) == 'c');
    assert(a[29] == 'd' && b64_symbol(29) == 'd');
    assert(a[30] == 'e' && b64_symbol(30) == 'e');
    assert(a[31] == 'f' && b64_symbol(31) == 'f');
    assert(a[32] == 'g' && b64_symbol(32) == 'g');
    assert(a[33] == 'h' && b64_symbol(33) == 'h');
    assert(a[34] == 'i' && b64_symbol(34) == 'i');
    assert(a[35] == 'j' && b64_symbol(35) == 'j');
    assert(a[36] == 'k' && b64_symbol(36) == 'k');
    assert(a[37] == 'l' && b64_symbol(37) == 'l');
    assert(a[38] == 'm' && b64_symbol(38) == 'm');
    assert(a[39] == 'n' && b64_symbol(39) == 'n');
    assert(a[40] == 'o' && b64_symbol(40) == 'o');
    assert(a[41] == 'p' && b64_symbol(41) == 'p');
    assert(a[42] == 'q' && b64_symbol(42) == 'q');
    assert(a[43] == 'r' && b64_symbol(43) == 'r');
    assert(a[44] == 's' && b64_symbol(44) == 's');
    assert(a[45] == 't' && b64_symbol(45) == 't');
    assert(a[46] == 'u' && b64_symbol(46) == 'u');
    assert(a[47] == 'v' && b64_symbol(47) == 'v');
    assert(a[48] == 'w' && b64_symbol(48) == 'w');
    assert(a[49] == 'x' && b64_symbol(49) == 'x');
    assert(a[50] == 'y' && b64_symbol(50) == 'y');
    assert(a[51] == 'z' && b64_symbol(51) == 'z');
    assert(a[52] == '0' && b64_symbol(52) == '0');
    assert(a[53] == '1' && b64_symbol(53) == '1');
    assert(a[54] == '2' && b64_symbol(54) == '2');
    assert(a[55] == '3' && b64_symbol(55) == '3');
    assert(a[56] == '4' && b64_symbol(56) == '4');
    assert(a[57] == '5' && b64_symbol(57) == '5');
    assert(a[58] == '6' && b64_symbol(58) == '6');
    assert(a[59] == '7' && b64_symbol(59) == '7');
    assert(a[60] == '8' && b64_symbol(60) == '8');
    assert(a[61] == '9' && b64_symbol(61) == '9');
    assert(a[62] == '+' && b64_symbol(62) == '+');
    assert(a[63] == '/' && b64_symbol(63) == '/');
    if 0 <= v < 64 {
        lemma_symbol_value(v);
    }
    if b64_value(c) is Some {
        let w = b64_value(c).unwrap();
        assert(0 <= w < 64);
        assert(b64_symbol(w) == c);
        assert(a[w] == c);
    }
}

/// One group of one to three bytes as four characters, `=`-padded.
pub open spec fn encode_group(c: Seq<u8>) -> Seq<char> {
    let b0 = c[0] as int;
    let b1 = if c.len() > 1 { c[1] as int } else { 0 };
    let b2 = if c.len() > 2 { c[2] as int } else { 0 };
    seq![
        b64_symbol(b0 / 4),
        b64_symbol((b0 % 4) * 16 + b1 / 16),
        if c.len() > 1 { b64_symbol((b1 % 16) * 4 + b2 / 64) } else { '=' },
        if c.len() > 2 { b64_symbol(b2 % 64) } else { '=' },
    ]
}

/// Standard padded base64 of `d`.
pub open spec fn b64_encode(d: Seq<u8>) -> Seq<char>
    decreases d.len(),
{
    if d.len() == 0 {
        Seq::empty()
    } else if d.len() <= 3 {
        encode_group(d)
    } else {
        encode_group(d.take(3)) + b64_encode(d.skip(3))
    }
}

/// The values of the alphabet characters of `s`, everything else skipped.
pub open spec fn b64_values(s: Seq<char>) -> Seq<int>
    decreases s.len(),
{
    if s.len() == 0 {
        Seq::empty()
    } else {
        match b64_value(s[0]) {
            Some(v) => seq![v] + b64_values(s.drop_first()),
            None => b64_values(s.drop_first()),
        }
    }
}

/// One group of one to four values as `len - 1` bytes.
pub open spec fn decode_group(v: Seq<int>) -> Seq<u8> {
    let c0 = v[0];
    let c1 = if v.len() > 1 { v[1] } else { 0 };
    let c2 = if v.len() > 2 { v[2] } else { 0 };
    let c3 = if v.len() > 3 { v[3] } else { 0 };
    seq![(c0 * 4 + c1 / 16) as u8, ((c1 % 16) * 16 + c2 / 4) as u8, ((c2 % 4) * 64 + c3) as u8].take(
        v.len() - 1,
    )
}

/// Decoding of a value sequence, four values at a time.
pub open spec fn decode_values(v: Seq<int>) -> Seq<u8>
    decreases v.len(),
{
    if v.len() == 0 {
        Seq::empty()
    } else if v.len() <= 4 {
        decode_group(v)
    } else {
        decode_group(v.take(4)) + decode_values(v.skip(4))
    }
}

/// Lenient base64 decoding: non-alphabet characters (padding included) are
/// skipped, and a trailing partial group yields as many whole bytes as it
/// carries.
pub open spec fn b64_decode(s: Seq<char>) -> Seq<u8> {
    decode_values(b64_values(s))
}

fn symbol(v: u32) -> (c: char)
    requires
        v < 64,
    ensures
        c == b64_symbol(v as int),
{
    if v < 26 {
        ((65 + v) as u8) as char
    } else if v < 52 {
        ((97 + v - 26) as u8) as char
    } else if v < 62 {
        ((48 + v - 52) as u8) as char
    } else if v == 62 {
        '+'
    } else {
        '/'
    }
}

fn value_of(c: char) -> (r: Option<u32>)
    ensures
        r matches Some(v) ==> b64_value(c) == Some(v as int) && v < 64,
        r is None ==> b64_value(c) is None,
{
    if 'A' <= c && c <= 'Z' {
        Some(c as u32 - 65)
    } else if 'a' <= c && c <= 'z' {
        Some(c as u32 - 97 + 26)
    } else if '0' <= c && c <= '9' {
        Some(c as u32 - 48 + 52)
    } else if c == '+' {
        Some(62)
    } else if c == '/' {
        Some(63)
    } else {
        None
    }
}

/// `_base64Encode`: standard padded base64.
pub fn base64_encode(data: &[u8]) -> (r: String)
    ensures
        r@ == b64_encode(data@),
{
    let n = data.len();
    let mut out: Vec<char> = Vec::new();
    let mut i: usize = 0;
    assert(out@ + b64_encode(data@.skip(0)) =~= b64_encode(data@)) by {
        assert(data@.skip(0) =~= data@);
    }
    while i < n
        invariant
            i <= n,
            n == data@.len(),
            out@ + b64_encode(data@.skip(i as int)) == b64_encode(data@),
        decreases n - i,
    {
        let rest = n - i;
        let b0 = data[i] as u32;
        let b1: u32 = if rest > 1 { data[i + 1] as u32 } else { 0 };
        let b2: u32 = if rest > 2 { data[i + 2] as u32 } else { 0 };
        let ghost t = data@.skip(i as int);
        let ghost g = if t.len() <= 3 { t } else { t.take(3) };
        proof {
            assert(g[0] == b0);
            if rest > 1 { assert(g[1] == b1); }
            if rest > 2 { assert(g[2] == b2); }
        }
        let mut chunk: Vec<char> = Vec::new();
        chunk.push(symbol(b0 / 4));
        chunk.push(symbol((b0 % 4) * 16 + b1 / 16));
        if rest > 1 {
            chunk.push(symbol((b1 % 16) * 4 + b2 / 64));
        } else {
            chunk.push('=');
        }
        if rest > 2 {
            chunk.push(symbol(b2 % 64));
        } else {
            chunk.push('=');
        }
        proof {
            assert(chunk@ =~= encode_group(g));
            if t.len() > 3 {
                assert(t.skip(3) =~= data@.skip(i + 3));
                assert(b64_encode(t) == encode_group(g) + b64_encode(data@.skip(i + 3)));
            }
        }
        let ghost before = out@;
        push_all(&mut out, &chunk);
        if rest > 3 {
            i = i + 3;
            proof {
                assert(out@ + b64_encode(data@.skip(i as int)) =~= before + b64_encode(t));
            }
        } else {
            i = n;
            proof {
                assert(data@.skip(n as int) =~= Seq::<u8>::empty());
                assert(out@ + b64_encode(data@.skip(i as int)) =~= before + b64_encode(t));
            }
        }
    }
    proof {
        assert(data@.skip(n as int) =~= Seq::<u8>::empty());
        assert(out@ =~= out@ + b64_encode(data@.skip(n as int)));
    }
    string_of(&out)
}

/// `_base64Decode`: the bytes of the base64 text, non-alphabet characters
/// ignored.
pub fn base64_decode(text: &str) -> (r: Vec<u8>)
    ensures
        r@ == b64_decode(text@),
{
    let s = chars_of(text);
    let mut vals: Vec<u32> = Vec::new();
    let mut i: usize = 0;
    assert(vals@.map_values(|v: u32| v as int) + b64_values(s@.skip(0)) =~= b64_values(s@)) by {
        assert(s@.skip(0) =~= s@);
    }
    while i < s.len()
        invariant
            i <= s@.len(),
            s@ == text@,
            forall|k: int| 0 <= k < vals@.len() ==> vals@[k] < 64,
            vals@.map_values(|v: u32| v as int) + b64_values(s@.skip(i as int)) == b64_values(s@),
        decreases s@.len() - i,
    {
        let ghost t = s@.skip(i as int);
        proof {
            assert(t.drop_first() =~= s@.skip(i + 1));
            assert(t[0] == s@[i as int]);
        }
        let ghost before = vals@.map_values(|v: u32| v as int);
        match value_of(s[i]) {
            Some(v) => {
                vals.push(v);
                proof {
                    assert(vals@.map_values(|v: u32| v as int) =~= before.push(v as int));
                    assert(b64_values(t) == seq![v as int] + b64_values(s@.skip(i + 1)));
                    assert(vals@.map_values(|v: u32| v as int) + b64_values(s@.skip(i + 1))
                        =~= before + b64_values(t));
                }
            },
            None => {},
        }
        i = i + 1;
    }
    proof {
        assert(s@.skip(s@.len() as int) =~= Seq::<char>::empty());
        assert(vals@.map_values(|v: u32| v as int) =~= b64_values(s@));
    }
    let ghost vs = vals@.map_values(|v: u32| v as int);
    let m = vals.len();
    let mut out: Vec<u8> = Vec::new();
    let mut j: usize = 0;
    assert(out@ + decode_values(vs.skip(0)) =~= decode_values(vs)) by {
        assert(vs.skip(0) =~= vs);
    }
    while j < m
        invariant
            j <= m,
            m == vals@.len(),
            vs == vals@.map_values(|v: u32| v as int),
            vs == b64_values(text@),
            forall|k: int| 0 <= k < vals@.len() ==> vals@[k] < 64,
            out@ + decode_values(vs.skip(j as int)) == decode_values(vs),
        decreases m - j,
    {
        let rest = m - j;
        let c0 = vals[j];
        let c1: u32 = if rest > 1 { vals[j + 1] } else { 0 };
        let c2: u32 = if rest > 2 { vals[j + 2] } else { 0 };
        let c3: u32 = if rest > 3 { vals[j + 3] } else { 0 };
        let ghost t = vs.skip(j as int);
        let ghost g = if t.len() <= 4 { t } else { t.take(4) };
        let n0 = (c0 * 4 + c1 / 16) as u8;
        let n1 = ((c1 % 16) * 16 + c2 / 4) as u8;
        let n2 = ((c2 % 4) * 64 + c3) as u8;
        let ghost before = out@;
        if rest > 1 {
            out.push(n0);
        }
        if rest > 2 {
            out.push(n1);
        }
        if rest > 3 {
            out.push(n2);
        }
        proof {
            assert(g[0] == c0 as int);
            if rest > 1 { assert(g[1] == c1 as int); }
            if rest > 2 { assert(g[2] == c2 as int); }
            if rest > 3 { assert(g[3] == c3 as int); }
            assert(out@ =~= before + decode_group(g));
            if t.len() > 4 {
                assert(t.skip(4) =~= vs.skip(j + 4));
            }
        }
        if rest > 4 {
            j = j + 4;
        } else {
            j = m;
            proof {
                assert(vs.skip(m as int) =~= Seq::<int>::empty());
            }
        }
    }
    proof {
        assert(vs.skip(m as int) =~= Seq::<int>::empty());
        assert(out@ =~= out@ + decode_values(vs.skip(m as int)));
    }
    out
}


proof fn lemma_values_concat(a: Seq<char>, b: Seq<char>)
    ensures
        b64_values(a + b) == b64_values(a) + b64_values(b),
    decreases a.len(),
{
    if a.len() == 0 {
        assert(a + b =~= b);
        assert(b64_values(a) =~= Seq::<int>::empty());
        assert(b64_values(a) + b64_values(b) =~= b64_values(b));
    } else {
        lemma_values_concat(a.drop_first(), b);
        assert((a + b).drop_first() =~= a.drop_first() + b);
        assert((a + b)[0] == a[0]);
        match b64_value(a[0]) {
            Some(v) => {
                assert(seq![v] + (b64_values(a.drop_first()) + b64_values(b)) =~= (seq![v]
                    + b64_values(a.drop_first())) + b64_values(b));
            },
            None => {},
        }
    }
}

proof fn lemma_symbol_value(v: int)
    requires
        0 <= v < 64,
    ensures
        b64_value(b64_symbol(v)) == Some(v),
{
}

proof fn lemma_group_arith(b0: u32, b1: u32, b2: u32)
    requires
        b0 < 256,
        b1 < 256,
        b2 < 256,
    ensures
        b0 / 4 < 64,
        (b0 % 4) * 16 + b1 / 16 < 64,
        (b1 % 16) * 4 + b2 / 64 < 64,
        b2 % 64 < 64,
        (b0 / 4) * 4 + ((b0 % 4) * 16 + b1 / 16) / 16 == b0,
        (((b0 % 4) * 16 + b1 / 16) % 16) * 16 + ((b1 % 16) * 4 + b2 / 64) / 4 == b1,
        (((b1 % 16) * 4 + b2 / 64) % 4) * 64 + b2 % 64 == b2,
{
    assert(b0 / 4 < 64) by (bit_vector)
        requires
            b0 < 256,
    ;
    assert((b0 % 4) * 16 + b1 / 16 < 64) by (bit_vector)
        requires
            b1 < 256,
    ;
    assert((b1 % 16) * 4 + b2 / 64 < 64) by (bit_vector)
        requires
            b2 < 256,
    ;
    assert((b0 / 4) * 4 + ((b0 % 4) * 16 + b1 / 16) / 16 == b0) by (bit_vector)
        requires
            b1 < 256,
            b0 < 256,
    ;
    assert((((b0 % 4) * 16 + b1 / 16) % 16) * 16 + ((b1 % 16) * 4 + b2 / 64) / 4 == b1)
        by (bit_vector)
        requires
            b1 < 256,
            b2 < 256,
    ;
    assert((((b1 % 16) * 4 + b2 / 64) % 4) * 64 + b2 % 64 == b2) by (bit_vector)
        requires
            b2 < 256,
    ;
}

proof fn lemma_group_roundtrip(c: Seq<u8>)
    requires
        1 <= c.len() <= 3,
    ensures
        b64_values(encode_group(c)).len() == c.len() + 1,
        decode_group(b64_values(encode_group(c))) == c,
{
    let b0 = c[0] as u32;
    let b1: u32 = if c.len() > 1 { c[1] as u32 } else { 0 };
    let b2: u32 = if c.len() > 2 { c[2] as u32 } else { 0 };
    lemma_group_arith(b0, b1, b2);
    let s0 = (b0 / 4) as int;
    let s1 = ((b0 % 4) * 16 + b1 / 16) as int;
    let s2 = ((b1 % 16) * 4 + b2 / 64) as int;
    let s3 = (b2 % 64) as int;
    lemma_symbol_value(s0);
    lemma_symbol_value(s1);
    lemma_symbol_value(s2);
    lemma_symbol_value(s3);
    let e = encode_group(c);
    assert(e[0] == b64_symbol(s0));
    assert(e[1] == b64_symbol(s1));
    let e1 = e.drop_first();
    let e2 = e1.drop_first();
    let e3 = e2.drop_first();
    let e4 = e3.drop_first();
    assert(e4 =~= Seq::<char>::empty());
    assert(b64_values(e4) =~= Seq::<int>::empty());
    assert(e1[0] == e[1]);
    assert(e2[0] == e[2]);
    assert(e3[0] == e[3]);
    let vals = if c.len() == 1 {
        seq![s0, s1]
    } else if c.len() == 2 {
        seq![s0, s1, s2]
    } else {
        seq![s0, s1, s2, s3]
    };
    assert(b64_values(e3) =~= if c.len() > 2 { seq![s3] } else { Seq::<int>::empty() });
    assert(b64_values(e2) =~= if c.len() > 1 { seq![s2] + b64_values(e3) } else { b64_values(e3) });
    assert(b64_values(e1) =~= seq![s1] + b64_values(e2));
    assert(b64_values(e) =~= seq![s0] + b64_values(e1));
    assert(b64_values(e) =~= vals);
    assert(decode_group(vals) =~= c);
}

proof fn lemma_encode_len(d: Seq<u8>)
    requires
        d.len() > 0,
    ensures
        b64_values(b64_encode(d)).len() >= 2,
    decreases d.len(),
{
    if d.len() <= 3 {
        lemma_group_roundtrip(d);
    } else {
        lemma_group_roundtrip(d.take(3));
        lemma_values_concat(encode_group(d.take(3)), b64_encode(d.skip(3)));
    }
}

/// What `_base64Encode` produces, `_base64Decode` turns back into the same
/// bytes.
pub proof fn law_base64_round_trip(d: Seq<u8>)
    ensures
        b64_decode(b64_encode(d)) == d,
    decreases d.len(),
{
    if d.len() == 0 {
        assert(b64_values(Seq::<char>::empty()) =~= Seq::<int>::empty());
        assert(b64_encode(d) =~= Seq::<char>::empty());
        assert(decode_values(Seq::<int>::empty()) =~= d);
    } else if d.len() <= 3 {
        lemma_group_roundtrip(d);
    } else {
        let g = encode_group(d.take(3));
        let rest = b64_encode(d.skip(3));
        lemma_group_roundtrip(d.take(3));
        lemma_values_concat(g, rest);
        lemma_encode_len(d.skip(3));
        law_base64_round_trip(d.skip(3));
        let vs = b64_values(g) + b64_values(rest);
        assert(vs.take(4) =~= b64_values(g));
        assert(vs.skip(4) =~= b64_values(rest));
        assert(decode_values(vs) == decode_group(vs.take(4)) + decode_values(vs.skip(4)));
        assert(d.take(3) + d.skip(3) =~= d);
    }
}


/// How many `=` end the base64 of `n` bytes.
pub open spec fn b64_padding(n: int) -> int {
    if n % 3 == 0 {
        0
    } else {
        3 - n % 3
    }
}

proof fn lemma_group_shape(c: Seq<u8>)
    requires
        1 <= c.len() <= 3,
    ensures
        encode_group(c).len() == 4,
        forall|k: int| 0 <= k <= c.len() ==> b64_value(#[trigger] encode_group(c)[k]) is Some,
        forall|k: int| c.len() < k < 4 ==> #[trigger] encode_group(c)[k] == '=',
{
    let b0 = c[0] as u32;
    let b1: u32 = if c.len() > 1 { c[1] as u32 } else { 0 };
    let b2: u32 = if c.len() > 2 { c[2] as u32 } else { 0 };
    lemma_group_arith(b0, b1, b2);
    lemma_symbol_value((b0 / 4) as int);
    lemma_symbol_value(((b0 % 4) * 16 + b1 / 16) as int);
    lemma_symbol_value(((b1 % 16) * 4 + b2 / 64) as int);
    lemma_symbol_value((b2 % 64) as int);
}

/// `_base64Encode` gives standard padded base64: four characters for each
/// started group of three bytes, alphabet characters only, then `=` as
/// padding to the last group.
pub proof fn law_base64_shape(d: Seq<u8>)
    ensures
        b64_encode(d).len() == 4 * ((d.len() + 2) / 3),
        forall|k: int|
            0 <= k < b64_encode(d).len() - b64_padding(d.len() as int) ==> b64_value(
                #[trigger] b64_encode(d)[k],
            ) is Some,
        forall|k: int|
            b64_encode(d).len() - b64_padding(d.len() as int) <= k < b64_encode(d).len()
                ==> #[trigger] b64_encode(d)[k] == '=',
    decreases d.len(),
{
    let e = b64_encode(d);
    if d.len() == 0 {
    } else if d.len() <= 3 {
        lemma_group_shape(d);
    } else {
        let g = encode_group(d.take(3));
        let rest = d.skip(3);
        lemma_group_shape(d.take(3));
        law_base64_shape(rest);
        assert(e == g + b64_encode(rest));
        assert(b64_padding(d.len() as int) == b64_padding(rest.len() as int));
        assert forall|k: int| 0 <= k < e.len() - b64_padding(d.len() as int) implies b64_value(
            #[trigger] e[k],
        ) is Some by {
            if k < 4 {
                assert(e[k] == g[k]);
            } else {
                assert(e[k] == b64_encode(rest)[k - 4]);
            }
        }
        assert forall|k: int|
            e.len() - b64_padding(d.len() as int) <= k < e.len() implies #[trigger] e[k] == '=' by {
            assert(e[k] == b64_encode(rest)[k - 4]);
        }
    }
}

} // verus!
