# pyren

The decisions of a laptop control daemon, verified with Verus: which power mode
a machine should be in, what an overclock may ask of a card, how a keyboard is
remapped, what queueing discipline an interface gets, and what installing a
patched driver takes.

`src/` is the library. It does no input or output: what was read of the machine
comes in as plain values, and what should be done goes out as plain values.
Loops that act and look in turn are state machines that are told what came of
each action.

- `text`, `number`, `msg`, `error`, `json`: characters, digits, the messages a
  client sees, refusals, and requests as they arrive.
- `power`: the four modes, the power managers and the firmware profile, package
  limits and turbo, the supervisor that switches by itself, and the watcher that
  notices what other programs change.
- `overclock`: what a card advertises, what is asked of it, the climb there, and
  the confirmation without which it goes back.
- `keymap`: the mapping table and the kernel's event and ioctl layouts.
- `network`: the default route and the queueing discipline on it.
- `installer`: the survey, the plan, the patch to the driver's source, and the
  run through a plan's steps.

Numbers with a fraction are held in millionths, power limits in microwatts and
times in milliseconds.

Properties that span functions are public proof functions named `law_...`, at
the end of the module they are about.

`app/` is the ordinary Rust around it: files, commands, devices, threads and
serialisation.
