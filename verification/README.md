# ground

A lightweight `epoll` reactor, with what it decides and computes verified by
Verus.

* `src/` is the verified library. `io` and `reactor` keep track of operations
  that would block and of the files to watch for them, `net` and `unix` tell how
  to create and to connect sockets, `dns` builds query packets and reads
  responses, and `executor` is the main loop. `laws` and `dns/laws` state what
  holds over any number of steps.
* `app/` makes the system calls: it is the reactor, the wrapper types and the
  asynchronous traits, driven by the library.
* `tests/` runs the library on concrete values.

The library makes no system call. What it takes from `libc` and `socket2` are
numbers, and from the standard library it takes the number of the last error of
the thread. Each comes through a small function whose contract is trusted, and
whose comment says what is claimed.
