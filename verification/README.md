# cryptotui

Streaming primitives for a live crypto-market dashboard, verified with Verus.

- `src/indicators/ring_buffer.rs`: a fixed-capacity ring buffer. Its view is the
  sequence of retained items, oldest first; every push slides that window one
  step along the stream (`slide`), and the proof functions there show that the
  window is always the most recent items and that evictions come out in FIFO
  order.
- `src/indicators/rsi.rs`: the warm-up schedule of Wilder's RSI, which decides
  for every tick whether it anchors, accumulates, seeds or smooths.
- `src/error.rs`: the library's error type.
- `app/`: the demo binary and the floating-point indicators (RSI, Bollinger
  Bands), built on the verified buffer and schedule.
