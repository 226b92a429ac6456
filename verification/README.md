# mini_runtime

The verified core of a small asynchronous runtime.

- `src/` is the library, proved with Verus:
  - `mini_mutex`: an asynchronous mutex as a state machine over wakers.
  - `lf::queue`: a first-in first-out queue of linked cells behind a dummy
    cell, whose removed cells are retired through a hazard-pointer domain
    and reused once reclaimed.
  - `lf::hazard_ptr`: the hazard-pointer domain (thread records, slot
    guards, retirement and reclamation) and the last-in first-out stack of
    record positions it walks.
  - `io::epoll`: epoll event masks and the registry that decides between
    adding and modifying a registration and finds the waker of an event.
  - `io::timer`, `io::net`, `net`: the polling decisions of sleeps and of
    non-blocking socket reads, writes and accepts.
- `app/` is the program around it: the thread-pool executor, the epoll
  thread and system calls, timers and sockets, and shared (locked) forms of
  the mutex and the queue.
- `tests/` runs the library on concrete values.
